//! The logistic network: requests for items, providers of items, and the
//! journeys that freights make between them.

use vstd::prelude::*;

use crate::data::{ItemId, all_item_ids};
use crate::items::inventory::Inventory;
use crate::items::item_map::{
    ItemMap, add_qty, item_map_checked_total, item_map_get, item_map_insert, item_map_new, item_map_remove,
    item_map_total, item_map_view, no_items, qty, remove_qty, sum_qty, total,
};
use crate::random::new_v4_id;

verus! {

/// An entity of the game world, by its 64-bit identifier.
pub type EntityId = u64;

/// How far the logistic network reaches: one planet, or the whole solar system.
#[derive(PartialEq, Eq, Structural, Clone, Copy, Debug, Default)]
pub enum LogisticScope {
    #[default]
    Planet,
    SolarSystem,
}

impl LogisticScope {
    /// The other scope.
    pub fn opposite(self) -> (r: Self)
        ensures
            r != self,
    {
        match self {
            LogisticScope::Planet => LogisticScope::SolarSystem,
            LogisticScope::SolarSystem => LogisticScope::Planet,
        }
    }

    /// The scope's name as shown to the player.
    pub fn label(&self) -> (r: &'static str)
        ensures
            *self == LogisticScope::Planet ==> r@ == "Planet"@,
            *self == LogisticScope::SolarSystem ==> r@ == "Solar System"@,
    {
        match self {
            LogisticScope::Planet => "Planet",
            LogisticScope::SolarSystem => "Solar System",
        }
    }
}

/// Taking the opposite scope twice gives the scope back.
pub proof fn law_opposite_is_an_involution(scope: LogisticScope)
    ensures
        opposite_of(opposite_of(scope)) == scope,
        opposite_of(scope) != scope,
{
}

/// The other scope.
pub open spec fn opposite_of(scope: LogisticScope) -> LogisticScope {
    match scope {
        LogisticScope::Planet => LogisticScope::SolarSystem,
        LogisticScope::SolarSystem => LogisticScope::Planet,
    }
}

/// Sum, over `ids`, of the requested quantity that `have` covers.
pub open spec fn covered(request: Map<ItemId, u32>, have: Map<ItemId, u32>, ids: Seq<ItemId>) -> int
    decreases ids.len(),
{
    if ids.len() == 0 {
        0
    } else {
        let id = ids.last();
        covered(request, have, ids.drop_last()) + (if qty(have, id) <= qty(request, id) {
            qty(have, id)
        } else {
            qty(request, id)
        })
    }
}

/// What `compute_fulfillment_percentage` returns: the percentage of the
/// requested quantity that `have` covers, rounded down.
pub open spec fn fulfillment(request: Map<ItemId, u32>, have: Map<ItemId, u32>) -> int {
    (covered(request, have, all_item_ids()) * 100) / total(request)
}

/// A request for items, answered by freights that bring them.
pub struct LogisticRequest {
    id: u128,
    items: ItemMap,
    scope: LogisticScope,
    pub freights: Vec<EntityId>,
}

/// The mathematical content of a `LogisticRequest`.
pub struct LogisticRequestView {
    pub id: u128,
    pub items: Map<ItemId, u32>,
    pub scope: LogisticScope,
    pub freights: Seq<EntityId>,
}

impl View for LogisticRequest {
    type V = LogisticRequestView;

    closed spec fn view(&self) -> LogisticRequestView {
        LogisticRequestView {
            id: self.id,
            items: item_map_view(self.items),
            scope: self.scope,
            freights: self.freights@,
        }
    }
}

/// Whether a request can be measured against an inventory without overflow
/// or division by zero: it asks for something, its total fits in `u32`, and
/// the covered quantity times 100 fits in `u32`.
pub open spec fn measurable(request: Map<ItemId, u32>, have: Map<ItemId, u32>) -> bool {
    &&& 0 < total(request) <= u32::MAX
    &&& covered(request, have, all_item_ids()) * 100 <= u32::MAX
}

impl Default for LogisticRequest {
    /// An empty planet-wide request with the nil id.
    fn default() -> (r: Self)
        ensures
            r@.id == 0,
            r@.items == no_items(),
            r@.scope == LogisticScope::Planet,
            r@.freights == Seq::<EntityId>::empty(),
    {
        LogisticRequest { id: 0, items: item_map_new(), scope: LogisticScope::Planet, freights: Vec::new() }
    }
}

impl LogisticRequest {
    /// A new request with a fresh random id and no freight.
    pub fn new(items: ItemMap, scope: LogisticScope) -> (r: Self)
        ensures
            r@.items == item_map_view(items),
            r@.scope == scope,
            r@.freights.len() == 0,
            r@.id & 0xF000_C000_0000_0000_0000u128 == 0x4000_8000_0000_0000_0000u128,
    {
        LogisticRequest { id: new_v4_id(), items, scope, freights: Vec::new() }
    }

    /// The request's id; `set_items` renews it.
    pub fn id(&self) -> (r: u128)
        ensures
            r == self@.id,
    {
        self.id
    }

    /// The request's scope.
    pub fn scope(&self) -> (r: &LogisticScope)
        ensures
            *r == self@.scope,
    {
        &self.scope
    }

    /// The requested items.
    pub fn items(&self) -> (r: &ItemMap)
        ensures
            item_map_view(*r) == self@.items,
    {
        &self.items
    }

    /// Replaces the requested items; the request gets a fresh random id.
    pub fn set_items(&mut self, items: ItemMap)
        ensures
            final(self)@.items == item_map_view(items),
            final(self)@.scope == old(self)@.scope,
            final(self)@.freights == old(self)@.freights,
            final(self)@.id & 0xF000_C000_0000_0000_0000u128 == 0x4000_8000_0000_0000_0000u128,
    {
        self.id = new_v4_id();
        self.items = items;
    }

    /// Asks for `quantity` more of `id`.
    pub fn add_item(&mut self, id: ItemId, quantity: u32)
        requires
            qty(old(self)@.items, id) + quantity <= u32::MAX,
        ensures
            final(self)@.items == add_qty(old(self)@.items, id, quantity),
            final(self)@.id == old(self)@.id,
            final(self)@.scope == old(self)@.scope,
            final(self)@.freights == old(self)@.freights,
    {
        match item_map_get(&self.items, id) {
            Some(item) => item_map_insert(&mut self.items, id, item + quantity),
            None => item_map_insert(&mut self.items, id, quantity),
        }
    }

    /// Asks for `quantity` less of `id`, dropping the entry when it falls to
    /// zero; an id that is not requested is left alone.
    pub fn remove_item(&mut self, id: ItemId, quantity: u32)
        requires
            old(self)@.items.dom().contains(id) ==> quantity <= old(self)@.items[id],
        ensures
            final(self)@.items == remove_qty(old(self)@.items, id, quantity),
            final(self)@.id == old(self)@.id,
            final(self)@.scope == old(self)@.scope,
            final(self)@.freights == old(self)@.freights,
    {
        match item_map_get(&self.items, id) {
            Some(item) => {
                let left = item - quantity;
                if left == 0 {
                    item_map_remove(&mut self.items, id);
                } else {
                    item_map_insert(&mut self.items, id, left);
                }
            },
            None => {},
        }
    }

    /// Whether the fulfillment of the request against `provider_inventory`
    /// can be computed (the condition that `compute_fulfillment_percentage`
    /// requires).
    pub fn fulfillment_computable(&self, provider_inventory: &Inventory) -> (r: bool)
        ensures
            r == measurable(self@.items, provider_inventory@.items),
    {
        let checked = item_map_checked_total(&self.items);
        proof {
            assert(self@.items == item_map_view(self.items));
        }
        match checked {
            Some(t) => {
                if t == 0 {
                    return false;
                }
                let c = self.covered_quantity(provider_inventory);
                let times_100 = c.checked_mul(100);
                times_100.is_some()
            },
            None => false,
        }
    }

    /// The requested quantity that `provider_inventory` covers: for each
    /// item, what it holds of it, at most what is requested.
    fn covered_quantity(&self, provider_inventory: &Inventory) -> (r: u32)
        requires
            total(self@.items) <= u32::MAX,
        ensures
            r == covered(self@.items, provider_inventory@.items, all_item_ids()),
    {
        let ids = ItemId::all();
        let ghost request = self@.items;
        let ghost have = provider_inventory@.items;
        let mut sum: u32 = 0;
        let mut i: usize = 0;
        while i < ids.len()
            invariant
                ids@ == all_item_ids(),
                request == self@.items,
                have == provider_inventory@.items,
                total(request) <= u32::MAX,
                0 <= i <= ids.len(),
                sum == covered(request, have, ids@.take(i as int)),
                sum <= sum_qty(request, ids@.take(i as int)),
            decreases ids.len() - i,
        {
            proof {
                assert(ids@.take(i + 1).drop_last() =~= ids@.take(i as int));
                crate::items::item_map::lemma_sum_qty_prefix(request, ids@, i + 1, ids.len() as int);
                assert(ids@.take(ids.len() as int) =~= ids@);
            }
            let id = ids[i];
            let requested = match item_map_get(&self.items, id) {
                Some(q) => q,
                None => 0,
            };
            let held = provider_inventory.quantity(id);
            sum = sum + if held <= requested {
                held
            } else {
                requested
            };
            i = i + 1;
        }
        proof {
            assert(ids@.take(ids.len() as int) =~= ids@);
        }
        sum
    }

    /// The percentage of the request that `provider_inventory` covers,
    /// rounded down: the covered quantity times 100 over the requested
    /// quantity (100 when everything is covered).
    pub fn compute_fulfillment_percentage(&self, provider_inventory: &Inventory) -> (r: u32)
        requires
            measurable(self@.items, provider_inventory@.items),
        ensures
            r == fulfillment(self@.items, provider_inventory@.items),
    {
        let covered = self.covered_quantity(provider_inventory);
        let requested = item_map_total(&self.items);
        covered * 100 / requested
    }

    /// The freights serving it.
    pub fn freights(&self) -> (r: &Vec<EntityId>)
        ensures
            r@ == self@.freights,
    {
        &self.freights
    }

    /// Records one more freight serving it.
    pub fn add_freight(&mut self, freight: EntityId)
        ensures
            final(self)@.freights == old(self)@.freights.push(freight),
            final(self)@.scope == old(self)@.scope,
            final(self)@.id == old(self)@.id,
            final(self)@.items == old(self)@.items,
    {
        self.freights.push(freight);
    }

    /// A click on item `id` in the request editor: a secondary click
    /// (`remove`) asks for one less of it, a primary click for one more.
    pub fn edit_item(&mut self, id: ItemId, remove: bool)
        requires
            remove ==> (old(self)@.items.dom().contains(id) ==> 1 <= old(self)@.items[id]),
            !remove ==> qty(old(self)@.items, id) + 1 <= u32::MAX,
        ensures
            final(self)@.items == (if remove {
                remove_qty(old(self)@.items, id, 1)
            } else {
                add_qty(old(self)@.items, id, 1)
            }),
            final(self)@.id == old(self)@.id,
            final(self)@.scope == old(self)@.scope,
            final(self)@.freights == old(self)@.freights,
    {
        if remove {
            self.remove_item(id, 1);
        } else {
            self.add_item(id, 1);
        }
    }

    /// A new request of scope `scope` for one `id`, as a primary click in the
    /// request editor starts it when there is no request yet.
    pub fn single(id: ItemId, scope: LogisticScope) -> (r: Self)
        ensures
            r@.items == no_items().insert(id, 1),
            r@.scope == scope,
            r@.freights.len() == 0,
    {
        let mut request = LogisticRequest::new(item_map_new(), scope);
        request.add_item(id, 1);
        request
    }

    /// Forgets the freight `freight`.
    pub fn remove_freight(&mut self, freight: EntityId)
        ensures
            final(self)@.freights == old(self)@.freights.filter(|f: EntityId| f != freight),
            final(self)@.id == old(self)@.id,
            final(self)@.items == old(self)@.items,
            final(self)@.scope == old(self)@.scope,
    {
        retain_other_than(&mut self.freights, freight);
    }
}

/// Keeps the entities other than `freight`, in order.
fn retain_other_than(freights: &mut Vec<EntityId>, freight: EntityId)
    ensures
        final(freights)@ == old(freights)@.filter(|f: EntityId| f != freight),
{
    let ghost before = freights@;
    let mut kept: Vec<EntityId> = Vec::new();
    let mut i: usize = 0;
    while i < freights.len()
        invariant
            before == freights@,
            0 <= i <= freights.len(),
            kept@ == before.take(i as int).filter(|f: EntityId| f != freight),
        decreases freights.len() - i,
    {
        proof {
            assert(before.take(i + 1).drop_last() =~= before.take(i as int));
            reveal_with_fuel(Seq::filter, 1);
        }
        if freights[i] != freight {
            kept.push(freights[i]);
        }
        i = i + 1;
    }
    proof {
        assert(before.take(before.len() as int) =~= before);
    }
    *freights = kept;
}

/// Whether the covered quantity never exceeds the requested one.
pub proof fn lemma_covered_le(request: Map<ItemId, u32>, have: Map<ItemId, u32>, ids: Seq<ItemId>)
    ensures
        0 <= covered(request, have, ids) <= sum_qty(request, ids),
        covered(request, have, ids) == sum_qty(request, ids) <==> (forall|i: int|
            0 <= i < ids.len() ==> qty(request, #[trigger] ids[i]) <= qty(have, ids[i])),
    decreases ids.len(),
{
    if ids.len() > 0 {
        let rest = ids.drop_last();
        lemma_covered_le(request, have, rest);
        if forall|i: int| 0 <= i < ids.len() ==> qty(request, #[trigger] ids[i]) <= qty(have, ids[i]) {
            assert forall|i: int| 0 <= i < rest.len() implies qty(request, #[trigger] rest[i]) <= qty(have, rest[i]) by {
                assert(rest[i] == ids[i]);
            }
            assert(ids[ids.len() - 1] == ids.last());
        }
        if covered(request, have, ids) == sum_qty(request, ids) {
            assert forall|i: int| 0 <= i < ids.len() implies qty(request, #[trigger] ids[i]) <= qty(have, ids[i]) by {
                if i < ids.len() - 1 {
                    assert(rest[i] == ids[i]);
                }
            }
        }
    }
}

/// The fulfillment is a percentage: between 0 and 100, 100 exactly when the
/// inventory holds everything requested, and above 0 exactly when it covers
/// at least one hundredth of the request.
pub proof fn law_fulfillment_is_a_percentage(request: Map<ItemId, u32>, have: Map<ItemId, u32>)
    requires
        measurable(request, have),
    ensures
        0 <= fulfillment(request, have) <= 100,
        fulfillment(request, have) == 100 <==> forall|id: ItemId| qty(request, id) <= #[trigger] qty(have, id),
        fulfillment(request, have) > 0 <==> covered(request, have, all_item_ids()) * 100 >= total(request),
{
    lemma_covered_le(request, have, all_item_ids());
    let c = covered(request, have, all_item_ids());
    let t = total(request);
    assert(0 <= (c * 100) / t <= 100) by (nonlinear_arith)
        requires
            0 <= c <= t,
            0 < t,
    ;
    assert(((c * 100) / t == 100) <==> c == t) by (nonlinear_arith)
        requires
            0 <= c <= t,
            0 < t,
    ;
    assert(((c * 100) / t > 0) <==> c * 100 >= t) by (nonlinear_arith)
        requires
            0 <= c,
            0 < t,
    ;
    if forall|id: ItemId| qty(request, id) <= #[trigger] qty(have, id) {
        assert forall|i: int| 0 <= i < all_item_ids().len() implies qty(request, #[trigger] all_item_ids()[i]) <= qty(have, all_item_ids()[i]) by {
            assert(qty(request, all_item_ids()[i]) <= qty(have, all_item_ids()[i]));
        }
    }
    if c == t {
        assert forall|id: ItemId| qty(request, id) <= #[trigger] qty(have, id) by {
            crate::data::lemma_all_item_ids(id);
            assert(qty(request, all_item_ids()[id.index()]) <= qty(have, all_item_ids()[id.index()]));
        }
    }
}

/// A building whose inventory answers requests of the given scope.
pub struct LogisticProvider {
    scope: LogisticScope,
    pub freights: Vec<EntityId>,
}

/// The mathematical content of a `LogisticProvider`.
pub struct LogisticProviderView {
    pub scope: LogisticScope,
    pub freights: Seq<EntityId>,
}

impl View for LogisticProvider {
    type V = LogisticProviderView;

    closed spec fn view(&self) -> LogisticProviderView {
        LogisticProviderView { scope: self.scope, freights: self.freights@ }
    }
}

impl Default for LogisticProvider {
    /// A planet-wide provider with no freight.
    fn default() -> (r: Self)
        ensures
            r@.scope == LogisticScope::Planet,
            r@.freights.len() == 0,
    {
        LogisticProvider { scope: LogisticScope::Planet, freights: Vec::new() }
    }
}

impl LogisticProvider {
    /// A provider of the given scope, with no freight.
    pub fn new(scope: LogisticScope) -> (r: Self)
        ensures
            r@.scope == scope,
            r@.freights.len() == 0,
    {
        LogisticProvider { scope, freights: Vec::new() }
    }

    /// The provider's scope.
    pub fn scope(&self) -> (r: &LogisticScope)
        ensures
            *r == self@.scope,
    {
        &self.scope
    }


    /// The freights serving it.
    pub fn freights(&self) -> (r: &Vec<EntityId>)
        ensures
            r@ == self@.freights,
    {
        &self.freights
    }

    /// Records one more freight serving it.
    pub fn add_freight(&mut self, freight: EntityId)
        ensures
            final(self)@.freights == old(self)@.freights.push(freight),
            final(self)@.scope == old(self)@.scope,
    {
        self.freights.push(freight);
    }

    /// Forgets the freight `freight`.
    pub fn remove_freight(&mut self, freight: EntityId)
        ensures
            final(self)@.freights == old(self)@.freights.filter(|f: EntityId| f != freight),
            final(self)@.scope == old(self)@.scope,
    {
        retain_other_than(&mut self.freights, freight);
    }
}

/// A freight's trip: fetch items from a provider for a request.
#[derive(Clone, Copy, Debug)]
pub struct LogisticJourney {
    request_id: u128,
    provider: EntityId,
    requester: EntityId,
}

impl LogisticJourney {
    /// A journey for request `request_id` from `provider` to `requester`,
    /// which must differ.
    pub fn new(request_id: u128, provider: EntityId, requester: EntityId) -> (r: Self)
        requires
            provider != requester,
        ensures
            r.request_id() == request_id,
            r.provider() == provider,
            r.requester() == requester,
    {
        LogisticJourney { request_id, provider, requester }
    }

    pub closed spec fn request_id_of(&self) -> u128 {
        self.request_id
    }

    pub closed spec fn provider_of(&self) -> EntityId {
        self.provider
    }

    pub closed spec fn requester_of(&self) -> EntityId {
        self.requester
    }

    /// Id of the request the journey serves.
    #[verifier::when_used_as_spec(request_id_of)]
    pub fn request_id(&self) -> (r: u128)
        ensures
            r == self.request_id_of(),
    {
        self.request_id
    }

    /// Where the items are fetched.
    #[verifier::when_used_as_spec(provider_of)]
    pub fn provider(&self) -> (r: EntityId)
        ensures
            r == self.provider_of(),
    {
        self.provider
    }

    /// Where the items are brought.
    #[verifier::when_used_as_spec(requester_of)]
    pub fn requester(&self) -> (r: EntityId)
        ensures
            r == self.requester_of(),
    {
        self.requester
    }
}

} // verus!
