//! Logistic freights: carriers that pick a request and a provider, fetch the
//! requested items from the provider and bring them to the requester.
//!
//! The world is read by the caller; these functions take what they need as
//! plain values and say what to do next.

use vstd::prelude::*;

use crate::data::ItemId;
use crate::order::{key_before, lemma_order_covers, occurs, stable_order};
use crate::items::inventory::{Inventory, InventoryView, transfer_amount, transfer_fits};
use crate::items::item_map::{ItemMap, add_qty, item_map_clone, item_map_entries, item_map_view, remove_qty};
use crate::items::logistic::{
    EntityId, LogisticJourney, LogisticProvider, LogisticRequest, LogisticScope, fulfillment,
    measurable,
};

verus! {

/// A carrier of the logistic network.
pub struct LogisticFreight {
    max_amount_per_transfer: u32,
    journey: Option<(LogisticJourney, Option<EntityId>)>,
    scope: LogisticScope,
}

/// The mathematical content of a `LogisticFreight`: the most it moves per
/// transfer, its journey with the entity it is heading to, and its scope.
pub struct LogisticFreightView {
    pub max_amount_per_transfer: u32,
    pub journey: Option<(LogisticJourney, Option<EntityId>)>,
    pub scope: LogisticScope,
}

impl View for LogisticFreight {
    type V = LogisticFreightView;

    closed spec fn view(&self) -> LogisticFreightView {
        LogisticFreightView {
            max_amount_per_transfer: self.max_amount_per_transfer,
            journey: self.journey,
            scope: self.scope,
        }
    }
}

/// Where a freight stands: its parent entity and all its ancestors.
pub struct FreightPlace {
    pub parent: EntityId,
    pub ancestors: Vec<EntityId>,
}

/// A building that requests items, as seen by a freight.
pub struct RequesterCandidate<'a> {
    pub entity: EntityId,
    pub request: &'a LogisticRequest,
    pub parent: EntityId,
    pub ancestors: Vec<EntityId>,
}

/// A building that provides items, as seen by a freight.
pub struct ProviderCandidate<'a> {
    pub entity: EntityId,
    pub provider: &'a LogisticProvider,
    pub inventory: &'a Inventory,
    pub parent: EntityId,
    pub ancestors: Vec<EntityId>,
}

/// Whether a building of scope `scope`, child of `parent` with ancestors
/// `ancestors`, is within reach of a freight of scope `freight_scope` standing
/// at `place_parent` with ancestors `place_ancestors`: the scopes agree, and on
/// a planet the parents are the same, in a solar system the two share an
/// ancestor.
pub open spec fn within_reach(
    freight_scope: LogisticScope,
    place_parent: EntityId,
    place_ancestors: Seq<EntityId>,
    scope: LogisticScope,
    parent: EntityId,
    ancestors: Seq<EntityId>,
) -> bool {
    &&& freight_scope == scope
    &&& match freight_scope {
        LogisticScope::Planet => parent == place_parent,
        LogisticScope::SolarSystem => exists|i: int|
            0 <= i < ancestors.len() && place_ancestors.contains(#[trigger] ancestors[i]),
    }
}

/// Whether the provider candidate may serve a requester `requester`: it is not
/// the requester itself and it is within the freight's reach.
pub open spec fn provider_qualifies(
    freight_scope: LogisticScope,
    place_parent: EntityId,
    place_ancestors: Seq<EntityId>,
    requester: EntityId,
    p: ProviderCandidate,
) -> bool {
    p.entity != requester && within_reach(
        freight_scope,
        place_parent,
        place_ancestors,
        p.provider@.scope,
        p.parent,
        p.ancestors@,
    )
}

/// The best provider among `providers` for the request `items` of
/// `requester`, scanned in order: a qualifying provider replaces the current
/// choice when its fulfillment score is higher, or equal with fewer freights.
/// The scan starts from score 1 and `usize::MAX` freights.  Returns the choice,
/// its score and its number of freights.
pub open spec fn provider_scan(
    freight_scope: LogisticScope,
    place_parent: EntityId,
    place_ancestors: Seq<EntityId>,
    requester: EntityId,
    items: Map<crate::data::ItemId, u32>,
    providers: Seq<ProviderCandidate>,
) -> (Option<EntityId>, int, int)
    decreases providers.len(),
{
    if providers.len() == 0 {
        (None, 1, usize::MAX as int)
    } else {
        let (best, score, nb) = provider_scan(
            freight_scope,
            place_parent,
            place_ancestors,
            requester,
            items,
            providers.drop_last(),
        );
        let p = providers.last();
        if provider_qualifies(freight_scope, place_parent, place_ancestors, requester, p) {
            let s = fulfillment(items, p.inventory@.items);
            let n = p.provider@.freights.len() as int;
            if s > score || (s == score && n < nb) {
                (Some(p.entity), s, n)
            } else {
                (best, score, nb)
            }
        } else {
            (best, score, nb)
        }
    }
}

/// A provider picked by the scan is a qualifying one.
pub proof fn lemma_scan_picks_qualifying(
    freight_scope: LogisticScope,
    place_parent: EntityId,
    place_ancestors: Seq<EntityId>,
    requester: EntityId,
    items: Map<crate::data::ItemId, u32>,
    providers: Seq<ProviderCandidate>,
)
    ensures
        provider_scan(freight_scope, place_parent, place_ancestors, requester, items, providers).0 matches Some(e)
            ==> exists|k: int| 0 <= k < providers.len() && #[trigger] provider_qualifies(
                freight_scope,
                place_parent,
                place_ancestors,
                requester,
                providers[k],
            ) && providers[k].entity == e,
    decreases providers.len(),
{
    if providers.len() > 0 {
        let rest = providers.drop_last();
        lemma_scan_picks_qualifying(freight_scope, place_parent, place_ancestors, requester, items, rest);
        if let Some(e) = provider_scan(freight_scope, place_parent, place_ancestors, requester, items, providers).0 {
            if provider_scan(freight_scope, place_parent, place_ancestors, requester, items, rest).0 == Some(e) {
                let k = choose|k: int| 0 <= k < rest.len() && #[trigger] provider_qualifies(
                    freight_scope,
                    place_parent,
                    place_ancestors,
                    requester,
                    rest[k],
                ) && rest[k].entity == e;
                assert(rest[k] == providers[k]);
            } else {
                let last = providers.len() - 1;
                assert(providers[last] == providers.last());
            }
        }
    }
}

/// Whether a freight takes the pair (a, b) of requesters in the order a before
/// b: fewer freights first, and the earlier requester first among equals.
pub open spec fn requester_before(requesters: Seq<RequesterCandidate>, a: int, b: int) -> bool {
    let na = requesters[a].request@.freights.len();
    let nb = requesters[b].request@.freights.len();
    na < nb || (na == nb && a < b)
}

/// The provider that the freight would pick for requester `i`, if any.
pub open spec fn provider_for(
    freight_scope: LogisticScope,
    place: FreightPlace,
    requesters: Seq<RequesterCandidate>,
    providers: Seq<ProviderCandidate>,
    i: int,
) -> Option<EntityId> {
    if within_reach(
        freight_scope,
        place.parent,
        place.ancestors@,
        requesters[i].request@.scope,
        requesters[i].parent,
        requesters[i].ancestors@,
    ) {
        provider_scan(
            freight_scope,
            place.parent,
            place.ancestors@,
            requesters[i].entity,
            requesters[i].request@.items,
            providers,
        ).0
    } else {
        None
    }
}

/// Whether requester `i` is looked at: it is within reach, and no requester
/// taken before it has found a provider.
pub open spec fn requester_reached(
    freight_scope: LogisticScope,
    place: FreightPlace,
    requesters: Seq<RequesterCandidate>,
    providers: Seq<ProviderCandidate>,
    i: int,
) -> bool {
    &&& within_reach(
        freight_scope,
        place.parent,
        place.ancestors@,
        requesters[i].request@.scope,
        requesters[i].parent,
        requesters[i].ancestors@,
    )
    &&& forall|j: int| 0 <= j < requesters.len() && requester_before(requesters, j, i)
        ==> provider_for(freight_scope, place, requesters, providers, j) is None
}

/// When a journey search runs without dividing by zero: every requester that
/// is looked at and has a qualifying provider asks for something measurable.
pub open spec fn search_measurable(
    freight_scope: LogisticScope,
    place: FreightPlace,
    requesters: Seq<RequesterCandidate>,
    providers: Seq<ProviderCandidate>,
) -> bool {
    forall|i: int, k: int|
        0 <= i < requesters.len() && 0 <= k < providers.len() && requester_reached(
            freight_scope,
            place,
            requesters,
            providers,
            i,
        ) && #[trigger] provider_qualifies(
            freight_scope,
            place.parent,
            place.ancestors@,
            requesters[i].entity,
            providers[k],
        ) ==> measurable(requesters[i].request@.items, providers[k].inventory@.items)
}

/// Whether requester `i` causes no division by zero in a journey search: when
/// it is looked at and some provider qualifies for it, it asks for something
/// measurable.
pub open spec fn measurable_if_reached(
    freight_scope: LogisticScope,
    place: FreightPlace,
    requesters: Seq<RequesterCandidate>,
    providers: Seq<ProviderCandidate>,
    i: int,
) -> bool {
    forall|k: int|
        0 <= k < providers.len() && requester_reached(freight_scope, place, requesters, providers, i)
            && #[trigger] provider_qualifies(
            freight_scope,
            place.parent,
            place.ancestors@,
            requesters[i].entity,
            providers[k],
        ) ==> measurable(requesters[i].request@.items, providers[k].inventory@.items)
}

/// What a journey search answers: the first requester, in the freight's order,
/// for which a provider is found, with that provider; or none when no
/// requester finds one.
pub open spec fn journey_found(
    freight_scope: LogisticScope,
    place: FreightPlace,
    requesters: Seq<RequesterCandidate>,
    providers: Seq<ProviderCandidate>,
    found: Option<(EntityId, EntityId)>,
) -> bool {
    &&& found matches Some((requester, provider)) ==> requester != provider && exists|i: int|
        0 <= i < requesters.len() && #[trigger] requesters[i].entity == requester
        && provider_for(freight_scope, place, requesters, providers, i) == Some(provider)
        && forall|j: int| 0 <= j < requesters.len() && requester_before(requesters, j, i)
            ==> provider_for(freight_scope, place, requesters, providers, j) is None
    &&& found is None ==> forall|i: int| 0 <= i < requesters.len()
        ==> provider_for(freight_scope, place, requesters, providers, i) is None
}

/// Unfolds `within_reach`: the building's scope is the freight's, on a planet
/// its parent is the freight's parent, in a solar system it shares an ancestor
/// with the freight.
proof fn lemma_within_reach_unfolds(
    freight_scope: LogisticScope,
    place_parent: EntityId,
    place_ancestors: Seq<EntityId>,
    scope: LogisticScope,
    parent: EntityId,
    ancestors: Seq<EntityId>,
)
    requires
        within_reach(freight_scope, place_parent, place_ancestors, scope, parent, ancestors),
    ensures
        scope == freight_scope,
        freight_scope == LogisticScope::Planet ==> parent == place_parent,
        freight_scope == LogisticScope::SolarSystem ==> exists|a: EntityId|
            #[trigger] place_ancestors.contains(a) && ancestors.contains(a),
{
    if freight_scope == LogisticScope::SolarSystem {
        let i = choose|i: int| 0 <= i < ancestors.len() && place_ancestors.contains(#[trigger] ancestors[i]);
        assert(ancestors.contains(ancestors[i]));
    }
}

/// A journey that a search finds joins two different buildings, a requester
/// and a provider, that both have the freight's scope and stand where the
/// freight reaches: on a planet, under the freight's own parent; in a solar
/// system, sharing an ancestor with the freight.
pub proof fn law_journey_within_scope(
    freight_scope: LogisticScope,
    place: FreightPlace,
    requesters: Seq<RequesterCandidate>,
    providers: Seq<ProviderCandidate>,
    found: Option<(EntityId, EntityId)>,
)
    requires
        journey_found(freight_scope, place, requesters, providers, found),
    ensures
        found matches Some((r, p)) ==> {
            &&& r != p
            &&& exists|i: int| 0 <= i < requesters.len() && #[trigger] requesters[i].entity == r && {
                &&& requesters[i].request@.scope == freight_scope
                &&& freight_scope == LogisticScope::Planet ==> requesters[i].parent == place.parent
                &&& freight_scope == LogisticScope::SolarSystem ==> exists|a: EntityId|
                    #[trigger] place.ancestors@.contains(a) && requesters[i].ancestors@.contains(a)
            }
            &&& exists|k: int| 0 <= k < providers.len() && #[trigger] providers[k].entity == p && {
                &&& providers[k].provider@.scope == freight_scope
                &&& freight_scope == LogisticScope::Planet ==> providers[k].parent == place.parent
                &&& freight_scope == LogisticScope::SolarSystem ==> exists|a: EntityId|
                    #[trigger] place.ancestors@.contains(a) && providers[k].ancestors@.contains(a)
            }
        },
{
    if let Some((r, p)) = found {
        let i = choose|i: int| 0 <= i < requesters.len() && #[trigger] requesters[i].entity == r
            && provider_for(freight_scope, place, requesters, providers, i) == Some(p)
            && forall|j: int| 0 <= j < requesters.len() && requester_before(requesters, j, i)
                ==> provider_for(freight_scope, place, requesters, providers, j) is None;
        lemma_within_reach_unfolds(
            freight_scope,
            place.parent,
            place.ancestors@,
            requesters[i].request@.scope,
            requesters[i].parent,
            requesters[i].ancestors@,
        );
        lemma_scan_picks_qualifying(
            freight_scope,
            place.parent,
            place.ancestors@,
            requesters[i].entity,
            requesters[i].request@.items,
            providers,
        );
        let k = choose|k: int| 0 <= k < providers.len() && #[trigger] provider_qualifies(
            freight_scope,
            place.parent,
            place.ancestors@,
            requesters[i].entity,
            providers[k],
        ) && providers[k].entity == p;
        lemma_within_reach_unfolds(
            freight_scope,
            place.parent,
            place.ancestors@,
            providers[k].provider@.scope,
            providers[k].parent,
            providers[k].ancestors@,
        );
    }
}

/// What a freight's journey step asks the world to do.
pub enum FreightCommand {
    /// Nothing this time.
    Wait,
    /// Move the request's items between the freight and `partner`: from
    /// `partner` into the freight when `from_provider`, the other way otherwise.
    Transfer { items: ItemMap, partner: EntityId, from_provider: bool },
    /// Drop the journey and unregister the freight from its request and provider.
    Unregister,
}

/// The mathematical content of a `FreightCommand`.
pub enum FreightCommandView {
    Wait,
    Transfer { items: Map<crate::data::ItemId, u32>, partner: EntityId, from_provider: bool },
    Unregister,
}

impl View for FreightCommand {
    type V = FreightCommandView;

    open spec fn view(&self) -> FreightCommandView {
        match self {
            FreightCommand::Wait => FreightCommandView::Wait,
            FreightCommand::Transfer { items, partner, from_provider } => FreightCommandView::Transfer {
                items: item_map_view(*items),
                partner: *partner,
                from_provider: *from_provider,
            },
            FreightCommand::Unregister => FreightCommandView::Unregister,
        }
    }
}

/// Whether some entity of `ancestors` is also in `place_ancestors`.
fn shares_ancestor(place_ancestors: &Vec<EntityId>, ancestors: &Vec<EntityId>) -> (r: bool)
    ensures
        r == exists|i: int| 0 <= i < ancestors@.len() && place_ancestors@.contains(#[trigger] ancestors@[i]),
{
    let mut i: usize = 0;
    while i < ancestors.len()
        invariant
            0 <= i <= ancestors.len(),
            forall|k: int| 0 <= k < i ==> !place_ancestors@.contains(#[trigger] ancestors@[k]),
        decreases ancestors.len() - i,
    {
        let mut j: usize = 0;
        while j < place_ancestors.len()
            invariant
                0 <= i < ancestors.len(),
                0 <= j <= place_ancestors.len(),
                forall|k: int| 0 <= k < j ==> place_ancestors@[k] != ancestors@[i as int],
            decreases place_ancestors.len() - j,
        {
            if place_ancestors[j] == ancestors[i] {
                proof {
                    assert(place_ancestors@.contains(ancestors@[i as int]));
                }
                return true;
            }
            j = j + 1;
        }
        i = i + 1;
    }
    false
}

/// Whether a building is within reach of the freight (see `within_reach`).
fn reaches(
    freight_scope: LogisticScope,
    place: &FreightPlace,
    scope: LogisticScope,
    parent: EntityId,
    ancestors: &Vec<EntityId>,
) -> (r: bool)
    ensures
        r == within_reach(freight_scope, place.parent, place.ancestors@, scope, parent, ancestors@),
{
    if freight_scope != scope {
        return false;
    }
    match freight_scope {
        LogisticScope::Planet => parent == place.parent,
        LogisticScope::SolarSystem => shares_ancestor(&place.ancestors, ancestors),
    }
}

impl LogisticFreight {
    /// A freight serving requests on its planet.
    pub fn new_planet() -> (r: Self)
        ensures
            r@.scope == LogisticScope::Planet,
            r@.max_amount_per_transfer == 100,
            r@.journey is None,
    {
        LogisticFreight { scope: LogisticScope::Planet, max_amount_per_transfer: 100, journey: None }
    }

    /// A freight serving requests across the solar system.
    pub fn new_solar_system() -> (r: Self)
        ensures
            r@.scope == LogisticScope::SolarSystem,
            r@.max_amount_per_transfer == 100,
            r@.journey is None,
    {
        LogisticFreight {
            scope: LogisticScope::SolarSystem,
            max_amount_per_transfer: 100,
            journey: None,
        }
    }

    /// The current journey, if any.
    pub fn logistic_journey(&self) -> (r: Option<&LogisticJourney>)
        ensures
            r == (match self@.journey {
                Some((journey, _)) => Some(&journey),
                None => None,
            }),
    {
        match &self.journey {
            Some((journey, _)) => Some(journey),
            None => None,
        }
    }

    /// The entity the freight is heading to, if any.
    pub fn move_target(&self) -> (r: Option<EntityId>)
        ensures
            r == (match self@.journey {
                Some((_, target)) => target,
                None => None,
            }),
    {
        match &self.journey {
            Some((_, target)) => *target,
            None => None,
        }
    }

    /// The freight's scope.
    pub fn scope(&self) -> (r: &LogisticScope)
        ensures
            *r == self@.scope,
    {
        &self.scope
    }

    /// The most the freight moves in one transfer.
    pub fn max_amount_per_transfer(&self) -> (r: u32)
        ensures
            r == self@.max_amount_per_transfer,
    {
        self.max_amount_per_transfer
    }
}

impl LogisticFreight {
    /// The best provider for `requester` (see `provider_scan`).
    fn choose_provider(
        &self,
        place: &FreightPlace,
        requester: &RequesterCandidate,
        providers: &Vec<ProviderCandidate>,
    ) -> (r: Option<EntityId>)
        requires
            forall|k: int| 0 <= k < providers@.len() && #[trigger] provider_qualifies(
                self@.scope,
                place.parent,
                place.ancestors@,
                requester.entity,
                providers@[k],
            ) ==> measurable(requester.request@.items, providers@[k].inventory@.items),
        ensures
            r == provider_scan(
                self@.scope,
                place.parent,
                place.ancestors@,
                requester.entity,
                requester.request@.items,
                providers@,
            ).0,
    {
        let mut best: Option<EntityId> = None;
        let mut best_score: u32 = 1;
        let mut best_nb: usize = usize::MAX;
        let mut j: usize = 0;
        while j < providers.len()
            invariant
                0 <= j <= providers.len(),
                forall|k: int| 0 <= k < providers@.len() && #[trigger] provider_qualifies(
                    self@.scope,
                    place.parent,
                    place.ancestors@,
                    requester.entity,
                    providers@[k],
                ) ==> measurable(requester.request@.items, providers@[k].inventory@.items),
                (best, best_score as int, best_nb as int) == provider_scan(
                    self@.scope,
                    place.parent,
                    place.ancestors@,
                    requester.entity,
                    requester.request@.items,
                    providers@.take(j as int),
                ),
            decreases providers.len() - j,
        {
            proof {
                assert(providers@.take(j + 1).drop_last() =~= providers@.take(j as int));
                assert(providers@.take(j + 1).last() == providers@[j as int]);
            }
            let candidate = &providers[j];
            if candidate.entity != requester.entity && reaches(
                self.scope,
                place,
                *candidate.provider.scope(),
                candidate.parent,
                &candidate.ancestors,
            ) {
                proof {
                    assert(provider_qualifies(
                        self@.scope,
                        place.parent,
                        place.ancestors@,
                        requester.entity,
                        providers@[j as int],
                    ));
                }
                let score = requester.request.compute_fulfillment_percentage(candidate.inventory);
                let nb = candidate.provider.freights().len();
                if score > best_score || (score == best_score && nb < best_nb) {
                    best_score = score;
                    best_nb = nb;
                    best = Some(candidate.entity);
                }
            }
            j = j + 1;
        }
        proof {
            assert(providers@.take(providers@.len() as int) =~= providers@);
        }
        best
    }
}

/// The positions of the requesters in the order a freight takes them: fewer
/// freights first, earlier position first among equals.
fn requester_order(requesters: &Vec<RequesterCandidate>) -> (r: Vec<usize>)
    ensures
        r@.len() == requesters@.len(),
        r@.no_duplicates(),
        forall|t: int| 0 <= t < r@.len() ==> #[trigger] r@[t] < requesters@.len(),
        forall|a: int, b: int| 0 <= a < b < r@.len() ==> requester_before(requesters@, r@[a] as int, r@[b] as int),
{
    let mut keys: Vec<usize> = Vec::new();
    let mut i: usize = 0;
    while i < requesters.len()
        invariant
            0 <= i <= requesters.len(),
            keys@.len() == i,
            forall|t: int| 0 <= t < i ==> #[trigger] keys@[t] == requesters@[t].request@.freights.len(),
        decreases requesters.len() - i,
    {
        keys.push(requesters[i].request.freights().len());
        i = i + 1;
    }
    let order = stable_order(&keys);
    proof {
        assert forall|a: int, b: int| 0 <= a < b < order@.len() implies requester_before(
            requesters@,
            order@[a] as int,
            order@[b] as int,
        ) by {
            assert(key_before(keys@, order@[a] as int, order@[b] as int));
        }
    }
    order
}

impl LogisticFreight {
    /// Searches a journey: the requesters within reach are taken with fewer
    /// freights first (earlier first among equals), and the first one for which
    /// a provider is found is the answer, as (requester, provider).
    pub fn find_journey(
        &self,
        place: &FreightPlace,
        requesters: &Vec<RequesterCandidate>,
        providers: &Vec<ProviderCandidate>,
    ) -> (r: Option<(EntityId, EntityId)>)
        requires
            search_measurable(self@.scope, *place, requesters@, providers@),
        ensures
            journey_found(self@.scope, *place, requesters@, providers@, r),
            r matches Some((req, prov)) ==> exists|k: int| 0 <= k < providers@.len()
                && #[trigger] providers@[k].entity == prov && providers@[k].provider@.scope == self@.scope,
            r matches Some((req, prov)) ==> exists|i: int| 0 <= i < requesters@.len()
                && #[trigger] requesters@[i].entity == req && requesters@[i].request@.scope == self@.scope,
    {
        match self.find_journey_checked(place, requesters, providers) {
            Some(found) => found,
            None => None,
        }
    }

    /// Whether the request of `requester` can be measured against every
    /// provider that qualifies for it.
    fn providers_measurable(
        &self,
        place: &FreightPlace,
        requester: &RequesterCandidate,
        providers: &Vec<ProviderCandidate>,
    ) -> (r: bool)
        ensures
            r == forall|k: int| 0 <= k < providers@.len() && #[trigger] provider_qualifies(
                self@.scope,
                place.parent,
                place.ancestors@,
                requester.entity,
                providers@[k],
            ) ==> measurable(requester.request@.items, providers@[k].inventory@.items),
    {
        let mut j: usize = 0;
        while j < providers.len()
            invariant
                0 <= j <= providers.len(),
                forall|k: int| 0 <= k < j && #[trigger] provider_qualifies(
                    self@.scope,
                    place.parent,
                    place.ancestors@,
                    requester.entity,
                    providers@[k],
                ) ==> measurable(requester.request@.items, providers@[k].inventory@.items),
            decreases providers.len() - j,
        {
            let candidate = &providers[j];
            if candidate.entity != requester.entity && reaches(
                self.scope,
                place,
                *candidate.provider.scope(),
                candidate.parent,
                &candidate.ancestors,
            ) && !requester.request.fulfillment_computable(candidate.inventory) {
                proof {
                    assert(provider_qualifies(
                        self@.scope,
                        place.parent,
                        place.ancestors@,
                        requester.entity,
                        providers@[j as int],
                    ));
                }
                return false;
            }
            j = j + 1;
        }
        true
    }

    /// The journey search of `find_journey`, on any input: `None` when the
    /// search would divide by zero (a requester that is looked at, with a
    /// qualifying provider, asks for nothing, or for too much to measure),
    /// and otherwise the search's answer.
    pub fn find_journey_checked(
        &self,
        place: &FreightPlace,
        requesters: &Vec<RequesterCandidate>,
        providers: &Vec<ProviderCandidate>,
    ) -> (r: Option<Option<(EntityId, EntityId)>>)
        ensures
            r is None <==> !search_measurable(self@.scope, *place, requesters@, providers@),
            r matches Some(found) ==> journey_found(self@.scope, *place, requesters@, providers@, found),
            r matches Some(Some((req, prov))) ==> exists|k: int| 0 <= k < providers@.len()
                && #[trigger] providers@[k].entity == prov && providers@[k].provider@.scope == self@.scope,
            r matches Some(Some((req, prov))) ==> exists|i: int| 0 <= i < requesters@.len()
                && #[trigger] requesters@[i].entity == req && requesters@[i].request@.scope == self@.scope,
    {
        let order = requester_order(requesters);
        let ghost n = requesters@.len();
        proof {
            lemma_order_covers(order@, n);
        }
        let mut t: usize = 0;
        while t < order.len()
            invariant
                0 <= t <= order@.len(),
                order@.len() == n,
                n == requesters@.len(),
                order@.no_duplicates(),
                forall|x: int| 0 <= x < order@.len() ==> #[trigger] order@[x] < n,
                forall|i: int| 0 <= i < n ==> #[trigger] occurs(order@, i),
                forall|a: int, b: int| 0 <= a < b < order@.len() ==> requester_before(requesters@, order@[a] as int, order@[b] as int),
                forall|x: int| 0 <= x < t ==> provider_for(self@.scope, *place, requesters@, providers@, #[trigger] order@[x] as int) is None,
                forall|x: int| 0 <= x < t ==> measurable_if_reached(self@.scope, *place, requesters@, providers@, #[trigger] order@[x] as int),
            decreases order@.len() - t,
        {
            let i = order[t];
            let requester = &requesters[i];
            proof {
                assert forall|j: int| 0 <= j < n && requester_before(requesters@, j, i as int)
                    implies provider_for(self@.scope, *place, requesters@, providers@, j) is None by {
                    assert(occurs(order@, j));
                    let x = choose|x: int| 0 <= x < order@.len() && order@[x] == j;
                    if x >= t {
                        if x > t {
                            assert(requester_before(requesters@, i as int, j));
                        }
                    }
                }
            }
            if reaches(self.scope, place, *requester.request.scope(), requester.parent, &requester.ancestors) {
                proof {
                    assert(requester_reached(self@.scope, *place, requesters@, providers@, i as int));
                }
                let all_measurable = self.providers_measurable(place, requester, providers);
                if !all_measurable {
                    proof {
                        let k = choose|k: int| 0 <= k < providers@.len() && #[trigger] provider_qualifies(
                            self@.scope,
                            place.parent,
                            place.ancestors@,
                            requester.entity,
                            providers@[k],
                        ) && !measurable(requester.request@.items, providers@[k].inventory@.items);
                        assert(provider_qualifies(
                            self@.scope,
                            place.parent,
                            place.ancestors@,
                            requesters@[i as int].entity,
                            providers@[k],
                        ));
                    }
                    return None;
                }
                proof {
                    assert(measurable_if_reached(self@.scope, *place, requesters@, providers@, i as int)) by {
                        assert forall|k: int| 0 <= k < providers@.len() && #[trigger] provider_qualifies(
                            self@.scope,
                            place.parent,
                            place.ancestors@,
                            requesters@[i as int].entity,
                            providers@[k],
                        ) implies measurable(requesters@[i as int].request@.items, providers@[k].inventory@.items) by {
                            assert(provider_qualifies(
                                self@.scope,
                                place.parent,
                                place.ancestors@,
                                requester.entity,
                                providers@[k],
                            ));
                        }
                    }
                }
                match self.choose_provider(place, requester, providers) {
                    Some(provider) => {
                        proof {
                            lemma_scan_picks_qualifying(
                                self@.scope,
                                place.parent,
                                place.ancestors@,
                                requester.entity,
                                requester.request@.items,
                                providers@,
                            );
                            assert(provider_for(self@.scope, *place, requesters@, providers@, i as int) == Some(provider));
                            assert forall|i2: int, k: int|
                                0 <= i2 < requesters@.len() && 0 <= k < providers@.len() && requester_reached(
                                    self@.scope,
                                    *place,
                                    requesters@,
                                    providers@,
                                    i2,
                                ) && #[trigger] provider_qualifies(
                                    self@.scope,
                                    place.parent,
                                    place.ancestors@,
                                    requesters@[i2].entity,
                                    providers@[k],
                                ) implies measurable(requesters@[i2].request@.items, providers@[k].inventory@.items) by {
                                assert(occurs(order@, i2));
                                let x = choose|x: int| 0 <= x < order@.len() && order@[x] == i2;
                                if x < t {
                                    assert(measurable_if_reached(self@.scope, *place, requesters@, providers@, order@[x] as int));
                                } else if x > t {
                                    assert(requester_before(requesters@, i as int, i2));
                                }
                            }
                        }
                        proof {
                            law_journey_within_scope(
                                self@.scope,
                                *place,
                                requesters@,
                                providers@,
                                Some((requester.entity, provider)),
                            );
                        }
                        return Some(Some((requester.entity, provider)));
                    },
                    None => {},
                }
            }
            t = t + 1;
        }
        proof {
            assert forall|i: int| 0 <= i < n implies provider_for(self@.scope, *place, requesters@, providers@, i) is None by {
                assert(occurs(order@, i));
                let x = choose|x: int| 0 <= x < order@.len() && order@[x] == i;
            }
            assert forall|i2: int, k: int|
                0 <= i2 < requesters@.len() && 0 <= k < providers@.len() && requester_reached(
                    self@.scope,
                    *place,
                    requesters@,
                    providers@,
                    i2,
                ) && #[trigger] provider_qualifies(
                    self@.scope,
                    place.parent,
                    place.ancestors@,
                    requesters@[i2].entity,
                    providers@[k],
                ) implies measurable(requesters@[i2].request@.items, providers@[k].inventory@.items) by {
                assert(occurs(order@, i2));
                let x = choose|x: int| 0 <= x < order@.len() && order@[x] == i2;
                assert(measurable_if_reached(self@.scope, *place, requesters@, providers@, order@[x] as int));
            }
        }
        Some(None)
    }
}

impl LogisticFreight {
    /// One step of an ongoing journey.  `requester` is the journey's requester,
    /// if it still exists; `provider_found` says whether the journey's provider
    /// still exists; the two `*_reached` flags say whether the freight is close
    /// enough to them.
    ///
    /// The journey is dropped when its requester is gone, or when the freight
    /// must fetch items and its provider is gone; a changed request asks for
    /// unregistering.  Otherwise, when the freight's inventory fulfils the
    /// request at least in part (a fulfillment percentage above 0, that is at
    /// least one hundredth of it) the freight heads to the requester and, once
    /// there, hands the items over; when it does not, it heads to the provider
    /// and, once there, takes the items.
    pub fn follow_journey(
        &mut self,
        inventory: &Inventory,
        requester: Option<&LogisticRequest>,
        provider_found: bool,
        requester_reached: bool,
        provider_reached: bool,
    ) -> (r: FreightCommand)
        requires
            old(self)@.journey is Some,
            (match requester {
                Some(request) => request@.id == old(self)@.journey.unwrap().0.request_id()
                    ==> measurable(request@.items, inventory@.items),
                None => true,
            }),
        ensures
            final(self)@.scope == old(self)@.scope,
            final(self)@.max_amount_per_transfer == old(self)@.max_amount_per_transfer,
            ({
                let journey = old(self)@.journey.unwrap().0;
                match requester {
                    None => final(self)@.journey is None && r@ is Wait,
                    Some(request) => if request@.id != journey.request_id() {
                        final(self)@ == old(self)@ && r@ is Unregister
                    } else if fulfillment(request@.items, inventory@.items) > 0 {
                        if requester_reached {
                            &&& final(self)@.journey == Some((journey, None::<EntityId>))
                            &&& r@ == (FreightCommandView::Transfer {
                                items: request@.items,
                                partner: journey.requester(),
                                from_provider: false,
                            })
                        } else {
                            final(self)@.journey == Some((journey, Some(journey.requester()))) && r@ is Wait
                        }
                    } else if provider_found {
                        if provider_reached {
                            &&& final(self)@.journey == Some((journey, None::<EntityId>))
                            &&& r@ == (FreightCommandView::Transfer {
                                items: request@.items,
                                partner: journey.provider(),
                                from_provider: true,
                            })
                        } else {
                            final(self)@.journey == Some((journey, Some(journey.provider()))) && r@ is Wait
                        }
                    } else {
                        final(self)@.journey is None && r@ is Wait
                    },
                }
            }),
    {
        let journey = match &self.journey {
            Some((journey, _)) => *journey,
            None => {
                return FreightCommand::Wait;
            },
        };
        match requester {
            None => {
                self.journey = None;
                FreightCommand::Wait
            },
            Some(request) => {
                if request.id() != journey.request_id() {
                    return FreightCommand::Unregister;
                }
                if request.compute_fulfillment_percentage(inventory) > 0 {
                    if requester_reached {
                        self.journey = Some((journey, None));
                        FreightCommand::Transfer {
                            items: item_map_clone(request.items()),
                            partner: journey.requester(),
                            from_provider: false,
                        }
                    } else {
                        self.journey = Some((journey, Some(journey.requester())));
                        FreightCommand::Wait
                    }
                } else if provider_found {
                    if provider_reached {
                        self.journey = Some((journey, None));
                        FreightCommand::Transfer {
                            items: item_map_clone(request.items()),
                            partner: journey.provider(),
                            from_provider: true,
                        }
                    } else {
                        self.journey = Some((journey, Some(journey.provider())));
                        FreightCommand::Wait
                    }
                } else {
                    self.journey = None;
                    FreightCommand::Wait
                }
            },
        }
    }

    /// Registers the freight on a journey: the request and the provider record
    /// it, and the freight remembers the journey, with no target yet.
    pub fn register(
        &mut self,
        freight: EntityId,
        requester: EntityId,
        request: &mut LogisticRequest,
        provider_entity: EntityId,
        provider: &mut LogisticProvider,
    )
        requires
            provider_entity != requester,
        ensures
            final(provider)@.freights == old(provider)@.freights.push(freight),
            final(provider)@.scope == old(provider)@.scope,
            final(request)@.freights == old(request)@.freights.push(freight),
            final(request)@.id == old(request)@.id,
            final(request)@.items == old(request)@.items,
            final(request)@.scope == old(request)@.scope,
            final(self)@.journey matches Some((journey, target)) && target is None
                && journey.request_id() == old(request)@.id && journey.provider() == provider_entity
                && journey.requester() == requester,
            final(self)@.scope == old(self)@.scope,
            final(self)@.max_amount_per_transfer == old(self)@.max_amount_per_transfer,
    {
        provider.add_freight(freight);
        request.add_freight(freight);
        self.journey = Some((LogisticJourney::new(request.id(), provider_entity, requester), None));
    }

    /// Takes the journey away, leaving none.
    pub fn take_journey(&mut self) -> (r: Option<LogisticJourney>)
        ensures
            r == (match old(self)@.journey {
                Some((journey, _)) => Some(journey),
                None => None,
            }),
            final(self)@.journey is None,
            final(self)@.scope == old(self)@.scope,
            final(self)@.max_amount_per_transfer == old(self)@.max_amount_per_transfer,
    {
        let journey = match &self.journey {
            Some((journey, _)) => Some(*journey),
            None => None,
        };
        self.journey = None;
        journey
    }
}

/// The quantity asked of `id` in one transfer: the requested quantity, at most
/// `max`.
pub open spec fn capped(quantity: u32, max: u32) -> u32 {
    if quantity <= max {
        quantity
    } else {
        max
    }
}

/// What transferring entry `i` of `entries` from `from` to `to` moves.
pub open spec fn entry_amount(
    entries: Seq<(ItemId, u32)>,
    max: u32,
    from: InventoryView,
    to: InventoryView,
    i: int,
) -> u32 {
    transfer_amount(from, to, entries[i].0, capped(entries[i].1, max))
}

/// Moves items for a transfer order: the entries are tried in turn, each
/// capped at `max`, and the first one of which something moves is the only
/// one moved.  Returns that entry's id and the quantity moved.
pub fn transfer_first(
    entries: &Vec<(ItemId, u32)>,
    max: u32,
    from: &mut Inventory,
    to: &mut Inventory,
) -> (r: Option<(ItemId, u32)>)
    requires
        forall|i: int| 0 <= i < entries@.len() && (forall|j: int| 0 <= j < i ==> entry_amount(entries@, max, old(from)@, old(to)@, j) == 0)
            ==> transfer_fits(old(from)@, old(to)@, #[trigger] entries@[i].0, capped(entries@[i].1, max)),
    ensures
        r is None ==> forall|i: int| 0 <= i < entries@.len() ==> entry_amount(entries@, max, old(from)@, old(to)@, i) == 0,
        r is None ==> final(from)@ == old(from)@ && final(to)@ == old(to)@,
        r matches Some((id, moved)) ==> exists|i: int| 0 <= i < entries@.len()
            && #[trigger] entries@[i].0 == id
            && moved == entry_amount(entries@, max, old(from)@, old(to)@, i)
            && moved > 0
            && (forall|j: int| 0 <= j < i ==> entry_amount(entries@, max, old(from)@, old(to)@, j) == 0)
            && final(from)@.items == remove_qty(old(from)@.items, id, moved)
            && final(to)@.items == add_qty(old(to)@.items, id, moved),
        final(from)@.size == old(from)@.size,
        final(to)@.size == old(to)@.size,
{
    let mut i: usize = 0;
    while i < entries.len()
        invariant
            0 <= i <= entries@.len(),
            from@ == old(from)@,
            to@ == old(to)@,
            forall|j: int| 0 <= j < i ==> entry_amount(entries@, max, old(from)@, old(to)@, j) == 0,
            forall|k: int| 0 <= k < entries@.len() && (forall|j: int| 0 <= j < k ==> entry_amount(entries@, max, old(from)@, old(to)@, j) == 0)
                ==> transfer_fits(old(from)@, old(to)@, #[trigger] entries@[k].0, capped(entries@[k].1, max)),
        decreases entries@.len() - i,
    {
        let (id, quantity) = entries[i];
        let asked = if quantity <= max {
            quantity
        } else {
            max
        };
        proof {
            assert(transfer_fits(old(from)@, old(to)@, entries@[i as int].0, capped(entries@[i as int].1, max)));
        }
        let moved = from.transfer_to(to, id, asked);
        if moved != 0 {
            proof {
                assert(entries@[i as int].0 == id);
            }
            return Some((id, moved));
        }
        i = i + 1;
    }
    None
}

impl LogisticFreight {
    /// Whether `transfer_items(items, from, to)` stays within `u32` (the
    /// condition that `transfer_items` requires).
    pub fn transfer_items_fit(&self, items: &ItemMap, from: &Inventory, to: &Inventory) -> (r: bool)
        ensures
            r == (forall|id: ItemId| #[trigger] item_map_view(*items).dom().contains(id) ==> transfer_fits(
                from@,
                to@,
                id,
                capped(item_map_view(*items)[id], self@.max_amount_per_transfer),
            )),
    {
        let entries = item_map_entries(items);
        let max = self.max_amount_per_transfer;
        let mut i: usize = 0;
        while i < entries.len()
            invariant
                0 <= i <= entries@.len(),
                max == self@.max_amount_per_transfer,
                forall|k: int| 0 <= k < entries@.len() ==> #[trigger] item_map_view(*items).dom().contains(entries@[k].0)
                    && item_map_view(*items)[entries@[k].0] == entries@[k].1,
                forall|j: int| 0 <= j < i ==> transfer_fits(from@, to@, #[trigger] entries@[j].0, capped(entries@[j].1, max)),
            decreases entries@.len() - i,
        {
            let (id, quantity) = entries[i];
            let asked = if quantity <= max {
                quantity
            } else {
                max
            };
            if !from.transfer_fits_u32(to, id, asked) {
                proof {
                    assert(item_map_view(*items).dom().contains(entries@[i as int].0));
                }
                return false;
            }
            i = i + 1;
        }
        proof {
            assert forall|id: ItemId| #[trigger] item_map_view(*items).dom().contains(id) implies transfer_fits(
                from@,
                to@,
                id,
                capped(item_map_view(*items)[id], max),
            ) by {
                let k = choose|k: int| 0 <= k < entries@.len() && #[trigger] entries@[k].0 == id;
                assert(item_map_view(*items).dom().contains(entries@[k].0));
            }
        }
        true
    }

    /// Carries out a transfer order for `items`: the requested entries, in the
    /// map's own order, each capped at the freight's maximum per transfer; the
    /// first entry of which something moves is the only one moved.
    pub fn transfer_items(&self, items: &ItemMap, from: &mut Inventory, to: &mut Inventory) -> (r: Option<(ItemId, u32)>)
        requires
            forall|id: ItemId| #[trigger] item_map_view(*items).dom().contains(id) ==> transfer_fits(
                old(from)@,
                old(to)@,
                id,
                capped(item_map_view(*items)[id], self@.max_amount_per_transfer),
            ),
        ensures
            r is None ==> forall|id: ItemId| #[trigger] item_map_view(*items).dom().contains(id)
                ==> transfer_amount(old(from)@, old(to)@, id, capped(item_map_view(*items)[id], self@.max_amount_per_transfer)) == 0,
            r is None ==> final(from)@ == old(from)@ && final(to)@ == old(to)@,
            r matches Some((id, moved)) ==> {
                &&& item_map_view(*items).dom().contains(id)
                &&& moved == transfer_amount(old(from)@, old(to)@, id, capped(item_map_view(*items)[id], self@.max_amount_per_transfer))
                &&& moved > 0
                &&& final(from)@.items == remove_qty(old(from)@.items, id, moved)
                &&& final(to)@.items == add_qty(old(to)@.items, id, moved)
            },
            final(from)@.size == old(from)@.size,
            final(to)@.size == old(to)@.size,
    {
        let entries = item_map_entries(items);
        let max = self.max_amount_per_transfer;
        proof {
            assert forall|k: int| 0 <= k < entries@.len() && (forall|j: int| 0 <= j < k ==> entry_amount(entries@, max, from@, to@, j) == 0)
                implies transfer_fits(from@, to@, #[trigger] entries@[k].0, capped(entries@[k].1, max)) by {
                assert(item_map_view(*items).dom().contains(entries@[k].0));
            }
        }
        let r = transfer_first(&entries, max, from, to);
        proof {
            if r is None {
                assert forall|id: ItemId| #[trigger] item_map_view(*items).dom().contains(id)
                    implies transfer_amount(old(from)@, old(to)@, id, capped(item_map_view(*items)[id], max)) == 0 by {
                    let i = choose|i: int| 0 <= i < entries@.len() && #[trigger] entries@[i].0 == id;
                    assert(entry_amount(entries@, max, old(from)@, old(to)@, i) == 0);
                }
            }
        }
        r
    }
}

/// Whether the provider qualifies and scores at least 1, the score that the
/// scan starts from.
pub open spec fn eligible_provider(
    freight_scope: LogisticScope,
    place_parent: EntityId,
    place_ancestors: Seq<EntityId>,
    requester: EntityId,
    items: Map<ItemId, u32>,
    p: ProviderCandidate,
) -> bool {
    provider_qualifies(freight_scope, place_parent, place_ancestors, requester, p)
        && fulfillment(items, p.inventory@.items) >= 1
}

/// Whether provider `k` comes before provider `j` for the request `items`: a
/// higher fulfillment score, or the same score with fewer freights, or the same
/// score and freights and an earlier position.
pub open spec fn preferred(items: Map<ItemId, u32>, providers: Seq<ProviderCandidate>, k: int, j: int) -> bool {
    let sk = fulfillment(items, providers[k].inventory@.items);
    let sj = fulfillment(items, providers[j].inventory@.items);
    let nk = providers[k].provider@.freights.len();
    let nj = providers[j].provider@.freights.len();
    ||| sj < sk
    ||| (sj == sk && nk < nj)
    ||| (sj == sk && nk == nj && k <= j)
}

/// Among the providers that qualify and score at least 1, the freight picks
/// the one with the best fulfillment score, then the fewest freights, then the
/// earliest; it picks none exactly when no qualifying provider scores at least
/// 1, and then the scan keeps its starting score 1 and `usize::MAX` freights.
pub proof fn law_provider_choice(
    freight_scope: LogisticScope,
    place_parent: EntityId,
    place_ancestors: Seq<EntityId>,
    requester: EntityId,
    items: Map<ItemId, u32>,
    providers: Seq<ProviderCandidate>,
)
    requires
        forall|k: int| 0 <= k < providers.len() ==> (#[trigger] providers[k]).provider@.freights.len() < usize::MAX,
    ensures
        ({
            let (best, score, nb) = provider_scan(freight_scope, place_parent, place_ancestors, requester, items, providers);
            &&& score >= 1
            &&& best is None <==> (forall|k: int| 0 <= k < providers.len()
                ==> !#[trigger] eligible_provider(freight_scope, place_parent, place_ancestors, requester, items, providers[k]))
            &&& best is None ==> score == 1 && nb == usize::MAX
            &&& best matches Some(e) ==> exists|k: int| 0 <= k < providers.len()
                && #[trigger] eligible_provider(freight_scope, place_parent, place_ancestors, requester, items, providers[k])
                && providers[k].entity == e
                && score == fulfillment(items, providers[k].inventory@.items)
                && nb == providers[k].provider@.freights.len()
                && forall|j: int| 0 <= j < providers.len()
                    && #[trigger] eligible_provider(freight_scope, place_parent, place_ancestors, requester, items, providers[j])
                    ==> preferred(items, providers, k, j)
        }),
    decreases providers.len(),
{
    if providers.len() > 0 {
        let rest = providers.drop_last();
        assert forall|k: int| 0 <= k < rest.len() implies (#[trigger] rest[k]).provider@.freights.len() < usize::MAX by {
            assert(rest[k] == providers[k]);
        }
        law_provider_choice(freight_scope, place_parent, place_ancestors, requester, items, rest);
        let last = providers.len() - 1;
        let p = providers[last];
        assert(p == providers.last());
        let s = fulfillment(items, p.inventory@.items);
        let n = p.provider@.freights.len() as int;
        let (best0, score0, nb0) = provider_scan(freight_scope, place_parent, place_ancestors, requester, items, rest);
        let (best, score, nb) = provider_scan(freight_scope, place_parent, place_ancestors, requester, items, providers);
        let qualifies = provider_qualifies(freight_scope, place_parent, place_ancestors, requester, p);
        let replaced = qualifies && (s > score0 || (s == score0 && n < nb0));
        let k0 = if best0 is Some {
            choose|k: int| 0 <= k < rest.len()
                && #[trigger] eligible_provider(freight_scope, place_parent, place_ancestors, requester, items, rest[k])
                && Some(rest[k].entity) == best0
                && score0 == fulfillment(items, rest[k].inventory@.items)
                && nb0 == rest[k].provider@.freights.len()
                && forall|j: int| 0 <= j < rest.len()
                    && #[trigger] eligible_provider(freight_scope, place_parent, place_ancestors, requester, items, rest[j])
                    ==> preferred(items, rest, k, j)
        } else {
            0
        };
        if best0 is Some {
            assert(rest[k0] == providers[k0]);
        }
        if replaced {
            assert(eligible_provider(freight_scope, place_parent, place_ancestors, requester, items, providers[last]));
            assert forall|j: int| 0 <= j < providers.len()
                && #[trigger] eligible_provider(freight_scope, place_parent, place_ancestors, requester, items, providers[j])
                implies preferred(items, providers, last, j) by {
                if j < last {
                    assert(rest[j] == providers[j]);
                    assert(eligible_provider(freight_scope, place_parent, place_ancestors, requester, items, rest[j]));
                    assert(preferred(items, rest, k0, j));
                }
            }
        } else {
            assert((best, score, nb) == (best0, score0, nb0));
            if best0 is Some {
                assert forall|j: int| 0 <= j < providers.len()
                    && #[trigger] eligible_provider(freight_scope, place_parent, place_ancestors, requester, items, providers[j])
                    implies preferred(items, providers, k0, j) by {
                    if j < last {
                        assert(rest[j] == providers[j]);
                        assert(eligible_provider(freight_scope, place_parent, place_ancestors, requester, items, rest[j]));
                        assert(preferred(items, rest, k0, j));
                    }
                }
            } else {
                assert(!eligible_provider(freight_scope, place_parent, place_ancestors, requester, items, providers[last]));
                assert forall|k: int| 0 <= k < providers.len()
                    implies !#[trigger] eligible_provider(freight_scope, place_parent, place_ancestors, requester, items, providers[k]) by {
                    if k < last {
                        assert(rest[k] == providers[k]);
                    }
                }
            }
        }
        if best is None {
            assert forall|k: int| 0 <= k < providers.len()
                implies !#[trigger] eligible_provider(freight_scope, place_parent, place_ancestors, requester, items, providers[k]) by {
                if k < last {
                    assert(rest[k] == providers[k]);
                }
            }
        } else {
            if forall|k: int| 0 <= k < providers.len()
                ==> !#[trigger] eligible_provider(freight_scope, place_parent, place_ancestors, requester, items, providers[k]) {
                if replaced {
                    assert(eligible_provider(freight_scope, place_parent, place_ancestors, requester, items, providers[last]));
                } else {
                    assert(eligible_provider(freight_scope, place_parent, place_ancestors, requester, items, rest[k0]));
                }
            }
        }
    }
}

impl Default for LogisticFreight {
    /// A planet-wide freight that moves nothing and has no journey.
    fn default() -> (r: Self)
        ensures
            r@.scope == LogisticScope::Planet,
            r@.max_amount_per_transfer == 0,
            r@.journey is None,
    {
        LogisticFreight { scope: LogisticScope::Planet, max_amount_per_transfer: 0, journey: None }
    }
}

} // verus!
