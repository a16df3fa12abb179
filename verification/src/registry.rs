//! The two registries: where outbound messages go, and which remote senders
//! may call in.

use vstd::prelude::*;

verus! {

/// A target chain and the name of an action of the locker.
pub type RouteKey = (Seq<char>, Seq<char>);

/// A contract on the target chain and the action of it to call.
pub type Route = (Seq<char>, Seq<char>);

/// A source chain, a contract on it, and the action that it may call.
pub type SenderKey = (Seq<char>, Seq<char>, Seq<char>);

/// One route: for a target chain and an action of the locker, the contract
/// on that chain and the action of it to call.
#[derive(Debug, PartialEq, Eq)]
pub struct DestinationEntry {
    pub chain: String,
    pub action: String,
    pub contract: String,
    pub dest_action: String,
}

/// What a [`DestinationEntry`] stands for.
pub struct DestinationEntryView {
    pub key: RouteKey,
    pub route: Route,
}

impl View for DestinationEntry {
    type V = DestinationEntryView;

    open spec fn view(&self) -> DestinationEntryView {
        DestinationEntryView {
            key: (self.chain@, self.action@),
            route: (self.contract@, self.dest_action@),
        }
    }
}

/// What a list of routes stands for.
pub open spec fn entries_view(entries: Seq<DestinationEntry>) -> Seq<DestinationEntryView> {
    entries.map_values(|entry: DestinationEntry| entry@)
}

/// The routes that a list of entries registers. Where two entries are for
/// the same chain and action, the earlier one counts.
pub open spec fn routes_from(entries: Seq<DestinationEntryView>) -> Map<RouteKey, Route>
    decreases entries.len(),
{
    if entries.len() == 0 {
        Map::empty()
    } else {
        let earlier = routes_from(entries.drop_last());
        if earlier.contains_key(entries.last().key) {
            earlier
        } else {
            earlier.insert(entries.last().key, entries.last().route)
        }
    }
}

spec fn route_key_at(entries: Seq<DestinationEntry>, at: int) -> RouteKey {
    (entries[at].chain@, entries[at].action@)
}

spec fn route_at(entries: Seq<DestinationEntry>, at: int) -> Route {
    (entries[at].contract@, entries[at].dest_action@)
}

spec fn first_route(entries: Seq<DestinationEntry>, key: RouteKey, at: int) -> bool {
    &&& 0 <= at < entries.len()
    &&& route_key_at(entries, at) == key
    &&& forall|before: int| 0 <= before < at ==> #[trigger] route_key_at(entries, before) != key
}

spec fn routes_of(entries: Seq<DestinationEntry>) -> Map<RouteKey, Route> {
    Map::new(
        |key: RouteKey| exists|at: int| first_route(entries, key, at),
        |key: RouteKey| route_at(entries, choose|at: int| first_route(entries, key, at)),
    )
}

proof fn lemma_route_found(entries: Seq<DestinationEntry>, key: RouteKey, at: int)
    requires
        first_route(entries, key, at),
    ensures
        routes_of(entries).contains_key(key),
        routes_of(entries)[key] == route_at(entries, at),
{
    let chosen = choose|at: int| first_route(entries, key, at);
    assert(first_route(entries, key, chosen));
    if chosen < at {
        assert(route_key_at(entries, chosen) != key);
    }
    if at < chosen {
        assert(route_key_at(entries, at) != key);
    }
}

proof fn lemma_some_route_is_first(entries: Seq<DestinationEntry>, key: RouteKey, at: int)
    requires
        0 <= at < entries.len(),
        route_key_at(entries, at) == key,
    ensures
        exists|first: int| first_route(entries, key, first),
    decreases at,
{
    if exists|before: int| 0 <= before < at && #[trigger] route_key_at(entries, before) == key {
        let before = choose|before: int|
            0 <= before < at && #[trigger] route_key_at(entries, before) == key;
        lemma_some_route_is_first(entries, key, before);
    } else {
        assert(first_route(entries, key, at));
    }
}

proof fn lemma_routes_from_entries(entries: Seq<DestinationEntry>)
    ensures
        routes_of(entries) == routes_from(entries_view(entries)),
    decreases entries.len(),
{
    let views = entries_view(entries);
    if entries.len() == 0 {
        assert(routes_of(entries) =~= routes_from(views));
    } else {
        let init = entries.drop_last();
        let last = entries.len() - 1;
        lemma_routes_from_entries(init);
        assert(entries_view(init) =~= views.drop_last());
        let earlier = routes_of(init);
        let last_key = route_key_at(entries, last);
        assert(views.last().key == last_key);
        assert(views.last().route == route_at(entries, last));
        assert forall|key: RouteKey| #[trigger]
            routes_of(entries).contains_key(key) == routes_from(views).contains_key(key) && (
            routes_of(entries).contains_key(key) ==> routes_of(entries)[key] == routes_from(
                views,
            )[key]) by {
            if earlier.contains_key(key) {
                let at = choose|at: int| first_route(init, key, at);
                assert(first_route(entries, key, at)) by {
                    assert forall|before: int| 0 <= before < at implies #[trigger] route_key_at(
                        entries,
                        before,
                    ) != key by {
                        assert(route_key_at(init, before) != key);
                    }
                    assert(route_key_at(init, at) == key);
                }
                lemma_route_found(init, key, at);
                lemma_route_found(entries, key, at);
            } else if key == last_key {
                assert forall|before: int| 0 <= before < last implies #[trigger] route_key_at(
                    entries,
                    before,
                ) != key by {
                    if route_key_at(init, before) == key {
                        lemma_some_route_is_first(init, key, before);
                    }
                }
                assert(first_route(entries, key, last));
                lemma_route_found(entries, key, last);
            } else {
                if routes_of(entries).contains_key(key) {
                    let at = choose|at: int| first_route(entries, key, at);
                    assert(at != last);
                    assert(first_route(init, key, at)) by {
                        assert(route_key_at(init, at) == key);
                        assert forall|before: int| 0 <= before < at implies #[trigger] route_key_at(
                            init,
                            before,
                        ) != key by {
                            assert(route_key_at(entries, before) != key);
                        }
                    }
                }
            }
        }
        assert(routes_of(entries) =~= routes_from(views));
    }
}

proof fn lemma_route_absent(entries: Seq<DestinationEntry>, key: RouteKey)
    requires
        forall|at: int| 0 <= at < entries.len() ==> #[trigger] route_key_at(entries, at) != key,
    ensures
        !routes_of(entries).contains_key(key),
{
}

proof fn lemma_other_route(
    before: Seq<DestinationEntry>,
    after: Seq<DestinationEntry>,
    key: RouteKey,
    place: int,
    other: RouteKey,
    at: int,
)
    requires
        0 <= place <= before.len(),
        after.len() == if place < before.len() { before.len() } else { before.len() + 1 },
        forall|at: int| 0 <= at < before.len() && at != place ==> after[at] == before[at],
        route_key_at(after, place) == key,
        place < before.len() ==> route_key_at(before, place) == key,
        other != key,
    ensures
        first_route(before, other, at) <==> first_route(after, other, at),
{
    if first_route(before, other, at) {
        assert(at != place);
        assert forall|earlier: int| 0 <= earlier < at implies #[trigger] route_key_at(
            after,
            earlier,
        ) != other by {
            assert(route_key_at(before, earlier) != other);
        }
    }
    if first_route(after, other, at) {
        assert(at != place);
        assert forall|earlier: int| 0 <= earlier < at implies #[trigger] route_key_at(
            before,
            earlier,
        ) != other by {
            assert(route_key_at(after, earlier) != other);
        }
    }
}

proof fn lemma_registered(
    before: Seq<DestinationEntry>,
    after: Seq<DestinationEntry>,
    key: RouteKey,
    place: int,
)
    requires
        0 <= place <= before.len(),
        after.len() == if place < before.len() { before.len() } else { before.len() + 1 },
        forall|at: int| 0 <= at < before.len() && at != place ==> after[at] == before[at],
        route_key_at(after, place) == key,
        place < before.len() ==> route_key_at(before, place) == key,
        forall|at: int| 0 <= at < place ==> #[trigger] route_key_at(before, at) != key,
    ensures
        routes_of(after) == routes_of(before).insert(key, route_at(after, place)),
{
    let wanted = routes_of(before).insert(key, route_at(after, place));
    assert(first_route(after, key, place)) by {
        assert forall|earlier: int| 0 <= earlier < place implies #[trigger] route_key_at(
            after,
            earlier,
        ) != key by {
            assert(route_key_at(before, earlier) != key);
        }
    }
    lemma_route_found(after, key, place);
    assert forall|other: RouteKey| #[trigger]
        routes_of(after).contains_key(other) == wanted.contains_key(other) && (wanted.contains_key(
            other,
        ) ==> routes_of(after)[other] == wanted[other]) by {
        if other != key {
            if routes_of(before).contains_key(other) {
                let at = choose|at: int| first_route(before, other, at);
                lemma_other_route(before, after, key, place, other, at);
                lemma_route_found(before, other, at);
                lemma_route_found(after, other, at);
                assert(at != place);
            }
            if routes_of(after).contains_key(other) {
                let at = choose|at: int| first_route(after, other, at);
                lemma_other_route(before, after, key, place, other, at);
                lemma_route_found(before, other, at);
            }
        }
    }
    assert(routes_of(after) =~= wanted);
}

/// Where outbound messages go: for a target chain and an action of the
/// locker, the contract on that chain and the action of it to call.
pub struct DestinationRegistry {
    entries: Vec<DestinationEntry>,
}

impl View for DestinationRegistry {
    type V = Map<RouteKey, Route>;

    closed spec fn view(&self) -> Map<RouteKey, Route> {
        routes_of(self.entries@)
    }
}

impl DestinationRegistry {
    /// The registry without a route.
    pub fn new() -> (registry: DestinationRegistry)
        ensures
            registry@ == Map::<RouteKey, Route>::empty(),
    {
        let registry = DestinationRegistry { entries: Vec::new() };
        assert(registry@ =~= Map::<RouteKey, Route>::empty());
        registry
    }

    fn find(&self, chain: &String, action: &String) -> (found: Option<usize>)
        ensures
            match found {
                Some(at) => first_route(self.entries@, (chain@, action@), at as int),
                None => forall|at: int|
                    0 <= at < self.entries@.len() ==> #[trigger] route_key_at(
                        self.entries@,
                        at,
                    ) != (chain@, action@),
            },
    {
        let mut i: usize = 0;
        while i < self.entries.len()
            invariant
                i <= self.entries@.len(),
                forall|before: int|
                    0 <= before < i ==> #[trigger] route_key_at(self.entries@, before) != (
                        chain@,
                        action@,
                    ),
            decreases self.entries@.len() - i,
        {
            if self.entries[i].chain == *chain && self.entries[i].action == *action {
                return Some(i);
            }
            i += 1;
        }
        None
    }

    /// The registry of the routes that `entries` register. Where two entries
    /// are for the same chain and action, the earlier one counts.
    pub fn from_entries(entries: Vec<DestinationEntry>) -> (registry: DestinationRegistry)
        ensures
            registry@ == routes_from(entries_view(entries@)),
    {
        let registry = DestinationRegistry { entries };
        proof {
            lemma_routes_from_entries(registry.entries@);
        }
        registry
    }

    /// The routes, as entries from which `from_entries` makes this registry
    /// again.
    pub fn entries(&self) -> (entries: Vec<DestinationEntry>)
        ensures
            routes_from(entries_view(entries@)) == self@,
    {
        let mut entries: Vec<DestinationEntry> = Vec::new();
        let mut i: usize = 0;
        while i < self.entries.len()
            invariant
                i <= self.entries@.len(),
                entries@.len() == i,
                forall|j: int| 0 <= j < i ==> entries@[j]@ == self.entries@[j]@,
            decreases self.entries@.len() - i,
        {
            let entry = &self.entries[i];
            entries.push(
                DestinationEntry {
                    chain: entry.chain.clone(),
                    action: entry.action.clone(),
                    contract: entry.contract.clone(),
                    dest_action: entry.dest_action.clone(),
                },
            );
            i += 1;
        }
        proof {
            lemma_routes_from_entries(self.entries@);
            assert(entries_view(entries@) =~= entries_view(self.entries@));
        }
        entries
    }

    /// The route registered for `chain` and `action`, if there is one.
    pub fn get(&self, chain: &String, action: &String) -> (route: Option<(String, String)>)
        ensures
            match route {
                Some((contract, dest_action)) => self@.contains_key((chain@, action@)) && self@[(
                    chain@,
                    action@,
                )] == (contract@, dest_action@),
                None => !self@.contains_key((chain@, action@)),
            },
    {
        match self.find(chain, action) {
            Some(at) => {
                proof {
                    lemma_route_found(self.entries@, (chain@, action@), at as int);
                }
                Some((self.entries[at].contract.clone(), self.entries[at].dest_action.clone()))
            },
            None => {
                proof {
                    lemma_route_absent(self.entries@, (chain@, action@));
                }
                None
            },
        }
    }

    /// Registers `contract` and `dest_action` as the route for `chain` and
    /// `action`, in place of the route that was there, if any.
    pub fn register(&mut self, chain: String, action: String, contract: String, dest_action: String)
        ensures
            final(self)@ == old(self)@.insert((chain@, action@), (contract@, dest_action@)),
    {
        let ghost key = (chain@, action@);
        let ghost route = (contract@, dest_action@);
        let ghost before = self.entries@;
        let found = self.find(&chain, &action);
        let entry = DestinationEntry { chain, action, contract, dest_action };
        match found {
            Some(at) => {
                self.entries.set(at, entry);
            },
            None => {
                self.entries.push(entry);
            },
        }
        proof {
            let place = match found {
                Some(at) => at as int,
                None => before.len() as int,
            };
            lemma_registered(before, self.entries@, key, place);
        }
    }
}

/// One permitted sender: a source chain, a contract on it, and the action
/// that it may call.
#[derive(Debug, PartialEq, Eq)]
pub struct PermittedEntry {
    pub chain: String,
    pub sender: String,
    pub action: String,
}

impl View for PermittedEntry {
    type V = SenderKey;

    open spec fn view(&self) -> SenderKey {
        (self.chain@, self.sender@, self.action@)
    }
}

/// What a list of permitted senders stands for.
pub open spec fn senders_view(entries: Seq<PermittedEntry>) -> Seq<SenderKey> {
    entries.map_values(|entry: PermittedEntry| entry@)
}

/// The senders that a list of entries permits.
pub open spec fn senders_from(entries: Seq<SenderKey>) -> Set<SenderKey> {
    Set::new(
        |key: SenderKey| exists|at: int| 0 <= at < entries.len() && #[trigger] entries[at] == key,
    )
}

spec fn sender_key_at(entries: Seq<PermittedEntry>, at: int) -> SenderKey {
    (entries[at].chain@, entries[at].sender@, entries[at].action@)
}

spec fn senders_of(entries: Seq<PermittedEntry>) -> Set<SenderKey> {
    Set::new(
        |key: SenderKey|
            exists|at: int| 0 <= at < entries.len() && #[trigger] sender_key_at(entries, at) == key,
    )
}

proof fn lemma_senders_from_entries(held: Seq<PermittedEntry>, listed: Seq<PermittedEntry>)
    requires
        held.len() == listed.len(),
        forall|at: int| 0 <= at < held.len() ==> held[at]@ == listed[at]@,
    ensures
        senders_of(held) == senders_from(senders_view(listed)),
{
    let keys = senders_view(listed);
    assert forall|key: SenderKey| senders_of(held).contains(key) <==> senders_from(keys).contains(
        key,
    ) by {
        if senders_of(held).contains(key) {
            let at = choose|at: int|
                0 <= at < held.len() && #[trigger] sender_key_at(held, at) == key;
            assert(keys[at] == key);
        }
        if senders_from(keys).contains(key) {
            let at = choose|at: int| 0 <= at < keys.len() && #[trigger] keys[at] == key;
            assert(sender_key_at(held, at) == key);
        }
    }
    assert(senders_of(held) =~= senders_from(keys));
}

/// Which remote senders may call in: a source chain, a contract on it, and
/// the action that it may call. A sender that is not here is not permitted.
pub struct PermittedSenders {
    entries: Vec<PermittedEntry>,
}

impl View for PermittedSenders {
    type V = Set<SenderKey>;

    closed spec fn view(&self) -> Set<SenderKey> {
        senders_of(self.entries@)
    }
}

impl PermittedSenders {
    /// The registry that permits nobody.
    pub fn new() -> (registry: PermittedSenders)
        ensures
            registry@ == Set::<SenderKey>::empty(),
    {
        let registry = PermittedSenders { entries: Vec::new() };
        assert(registry@ =~= Set::<SenderKey>::empty());
        registry
    }

    /// The registry that permits the senders that `entries` name.
    pub fn from_entries(entries: Vec<PermittedEntry>) -> (registry: PermittedSenders)
        ensures
            registry@ == senders_from(senders_view(entries@)),
    {
        let registry = PermittedSenders { entries };
        proof {
            lemma_senders_from_entries(registry.entries@, registry.entries@);
        }
        registry
    }

    /// The permitted senders, as entries from which `from_entries` makes this
    /// registry again.
    pub fn entries(&self) -> (entries: Vec<PermittedEntry>)
        ensures
            senders_from(senders_view(entries@)) == self@,
    {
        let mut entries: Vec<PermittedEntry> = Vec::new();
        let mut i: usize = 0;
        while i < self.entries.len()
            invariant
                i <= self.entries@.len(),
                entries@.len() == i,
                forall|j: int| 0 <= j < i ==> entries@[j]@ == self.entries@[j]@,
            decreases self.entries@.len() - i,
        {
            let entry = &self.entries[i];
            entries.push(
                PermittedEntry {
                    chain: entry.chain.clone(),
                    sender: entry.sender.clone(),
                    action: entry.action.clone(),
                },
            );
            i += 1;
        }
        proof {
            lemma_senders_from_entries(self.entries@, entries@);
        }
        entries
    }

    /// Whether `sender` on `chain` may call `action`.
    pub fn contains(&self, chain: &String, sender: &String, action: &String) -> (permitted: bool)
        ensures
            permitted == self@.contains((chain@, sender@, action@)),
    {
        let mut i: usize = 0;
        while i < self.entries.len()
            invariant
                i <= self.entries@.len(),
                forall|before: int|
                    0 <= before < i ==> #[trigger] sender_key_at(self.entries@, before) != (
                        chain@,
                        sender@,
                        action@,
                    ),
            decreases self.entries@.len() - i,
        {
            let entry = &self.entries[i];
            if entry.chain == *chain && entry.sender == *sender && entry.action == *action {
                assert(sender_key_at(self.entries@, i as int) == (chain@, sender@, action@));
                return true;
            }
            i += 1;
        }
        false
    }

    /// Permits `sender` on `chain` to call `action`. Permitting it again
    /// changes nothing.
    pub fn register(&mut self, chain: String, sender: String, action: String)
        ensures
            final(self)@ == old(self)@.insert((chain@, sender@, action@)),
    {
        let ghost key = (chain@, sender@, action@);
        let ghost before = self.entries@;
        if self.contains(&chain, &sender, &action) {
            assert(self@ =~= old(self)@.insert(key));
            return ;
        }
        self.entries.push(PermittedEntry { chain, sender, action });
        proof {
            let after = self.entries@;
            assert(sender_key_at(after, before.len() as int) == key);
            assert forall|other: SenderKey| senders_of(after).contains(other) <==> (other == key
                || senders_of(before).contains(other)) by {
                if senders_of(before).contains(other) {
                    let at = choose|at: int|
                        0 <= at < before.len() && #[trigger] sender_key_at(before, at) == other;
                    assert(sender_key_at(after, at) == other);
                }
                if senders_of(after).contains(other) && other != key {
                    let at = choose|at: int|
                        0 <= at < after.len() && #[trigger] sender_key_at(after, at) == other;
                    assert(sender_key_at(before, at) == other);
                }
            }
            assert(self@ =~= old(self)@.insert(key));
        }
    }
}

} // verus!
