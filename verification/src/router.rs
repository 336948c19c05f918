//! The route table: bindings from a method and a literal path to a handler.

use crate::method::Method;
use crate::text::same_text;
use vstd::prelude::*;

verus! {

/// What identifies a route: its method and its literal path.
pub type RouteKey = (Method, Seq<char>);

/// What `register` does with a method and path that are bound already.
#[derive(Clone, Copy, Debug, PartialEq, Eq, Structural)]
pub enum DuplicatePolicy {
    /// The registration fails and the table stays as it was.
    Reject,
    /// The new handler takes the place of the old one.
    Overwrite,
}

/// A registration that the table's policy refused: the method and path were bound already.
#[derive(Clone, Debug, PartialEq, Eq)]
pub struct ConfigurationError {
    pub method: Method,
    pub path: String,
}

/// No route is bound to the method and path that were asked for.
#[derive(Clone, Copy, Debug, PartialEq, Eq, Structural)]
pub struct NoRouteMatch;

/// One binding of the table.
pub struct Route<H> {
    method: Method,
    path: String,
    handler: H,
}

impl<H> Route<H> {
    /// The method and path that the route answers to.
    pub closed spec fn key(self) -> RouteKey {
        (self.method, self.path@)
    }

    /// The handler that the route is bound to.
    pub closed spec fn bound(self) -> H {
        self.handler
    }

    /// The method that the route answers to.
    pub fn method(&self) -> (method: Method)
        ensures
            method == self.key().0,
    {
        self.method
    }

    /// The literal path that the route answers to.
    pub fn path(&self) -> (path: &str)
        ensures
            path@ == self.key().1,
    {
        self.path.as_str()
    }

    /// The handler that the route is bound to.
    pub fn handler(&self) -> (handler: &H)
        ensures
            *handler == self.bound(),
    {
        &self.handler
    }
}

/// No two routes of the sequence answer to the same method and path.
spec fn distinct_keys<H>(routes: Seq<Route<H>>) -> bool {
    forall|i: int, j: int|
        0 <= i < j < routes.len() ==> (#[trigger] routes[i]).key() != (#[trigger] routes[j]).key()
}

/// Whether some route of the sequence answers to the key.
spec fn binds<H>(routes: Seq<Route<H>>, key: RouteKey) -> bool {
    exists|i: int| 0 <= i < routes.len() && (#[trigger] routes[i]).key() == key
}

/// The position of a route that answers to the key.
spec fn position_of<H>(routes: Seq<Route<H>>, key: RouteKey) -> int {
    choose|i: int| 0 <= i < routes.len() && (#[trigger] routes[i]).key() == key
}

/// The table that a sequence of routes stands for.
spec fn table_of<H>(routes: Seq<Route<H>>) -> Map<RouteKey, H> {
    Map::new(
        |key: RouteKey| binds(routes, key),
        |key: RouteKey| routes[position_of(routes, key)].bound(),
    )
}

proof fn lemma_table_at<H>(routes: Seq<Route<H>>, i: int)
    requires
        distinct_keys(routes),
        0 <= i < routes.len(),
    ensures
        table_of(routes).contains_key(routes[i].key()),
        table_of(routes)[routes[i].key()] == routes[i].bound(),
{
    let key = routes[i].key();
    let p = position_of(routes, key);
    assert(0 <= p < routes.len() && routes[p].key() == key);
    if p < i {
        assert(routes[p].key() != routes[i].key());
    } else if i < p {
        assert(routes[i].key() != routes[p].key());
    }
}

proof fn lemma_table_after_push<H>(routes: Seq<Route<H>>, route: Route<H>)
    requires
        distinct_keys(routes),
        !binds(routes, route.key()),
    ensures
        distinct_keys(routes.push(route)),
        table_of(routes.push(route)) == table_of(routes).insert(route.key(), route.bound()),
{
    let after = routes.push(route);
    assert forall|i: int, j: int| 0 <= i < j < after.len() implies (#[trigger] after[i]).key()
        != (#[trigger] after[j]).key() by {
        if j < routes.len() {
            assert(routes[i].key() != routes[j].key());
        } else {
            assert(after[i] == routes[i]);
        }
    }
    let grown = table_of(routes).insert(route.key(), route.bound());
    assert forall|key: RouteKey| table_of(after).contains_key(key) <==> grown.contains_key(key) by {
        if binds(after, key) {
            let i = position_of(after, key);
            if i < routes.len() {
                assert(routes[i].key() == key);
            }
        }
        if binds(routes, key) {
            let i = position_of(routes, key);
            assert(after[i].key() == key);
        }
        if key == route.key() {
            assert(after[routes.len() as int].key() == key);
        }
    }
    assert forall|key: RouteKey| table_of(after).contains_key(key) implies table_of(after)[key]
        == grown[key] by {
        let i = position_of(after, key);
        lemma_table_at(after, i);
        if i < routes.len() {
            assert(after[i] == routes[i]);
            lemma_table_at(routes, i);
        }
    }
    assert(table_of(after) =~= grown);
}

proof fn lemma_table_after_update<H>(routes: Seq<Route<H>>, at: int, route: Route<H>)
    requires
        distinct_keys(routes),
        0 <= at < routes.len(),
        routes[at].key() == route.key(),
    ensures
        distinct_keys(routes.update(at, route)),
        table_of(routes.update(at, route)) == table_of(routes).insert(route.key(), route.bound()),
{
    let after = routes.update(at, route);
    assert forall|i: int, j: int| 0 <= i < j < after.len() implies (#[trigger] after[i]).key()
        != (#[trigger] after[j]).key() by {
        assert(routes[i].key() != routes[j].key());
    }
    let grown = table_of(routes).insert(route.key(), route.bound());
    assert forall|key: RouteKey| table_of(after).contains_key(key) <==> grown.contains_key(key) by {
        if binds(after, key) {
            let i = position_of(after, key);
            assert(routes[i].key() == key);
        }
        if binds(routes, key) {
            let i = position_of(routes, key);
            assert(after[i].key() == key);
        }
        if key == route.key() {
            assert(after[at].key() == key);
        }
    }
    assert forall|key: RouteKey| table_of(after).contains_key(key) implies table_of(after)[key]
        == grown[key] by {
        let i = position_of(after, key);
        lemma_table_at(after, i);
        if i != at {
            assert(after[i] == routes[i]);
            lemma_table_at(routes, i);
        }
    }
    assert(table_of(after) =~= grown);
}

/// What resolving a key in a table gives: the bound handler, or no match.
pub open spec fn resolved<H>(table: Map<RouteKey, H>, key: RouteKey) -> Result<H, NoRouteMatch> {
    if table.contains_key(key) {
        Ok(table[key])
    } else {
        Err(NoRouteMatch)
    }
}

/// Whether a table with the given policy takes a registration for the key.
pub open spec fn accepts<H>(
    table: Map<RouteKey, H>,
    policy: DuplicatePolicy,
    key: RouteKey,
) -> bool {
    policy == DuplicatePolicy::Overwrite || !table.contains_key(key)
}

/// The table after a registration was asked for: with the new binding where the
/// registration is accepted, unchanged where it is not.
pub open spec fn after_register<H>(
    table: Map<RouteKey, H>,
    policy: DuplicatePolicy,
    key: RouteKey,
    handler: H,
) -> Map<RouteKey, H> {
    if accepts(table, policy, key) {
        table.insert(key, handler)
    } else {
        table
    }
}

/// The table after a sequence of registrations was asked for, one after the other.
pub open spec fn after_registrations<H>(
    table: Map<RouteKey, H>,
    policy: DuplicatePolicy,
    asked: Seq<(RouteKey, H)>,
) -> Map<RouteKey, H>
    decreases asked.len(),
{
    if asked.len() == 0 {
        table
    } else {
        after_register(
            after_registrations(table, policy, asked.drop_last()),
            policy,
            asked.last().0,
            asked.last().1,
        )
    }
}

/// The route table. No two of its routes answer to the same method and path.
pub struct Router<H> {
    routes: Vec<Route<H>>,
    policy: DuplicatePolicy,
}

impl<H> View for Router<H> {
    type V = Map<RouteKey, H>;

    /// The table as a map from method and path to the bound handler.
    closed spec fn view(&self) -> Map<RouteKey, H> {
        table_of(self.routes@)
    }
}

impl<H> Router<H> {
    #[verifier::type_invariant]
    spec fn well_formed(self) -> bool {
        distinct_keys(self.routes@)
    }

    /// What the table does with a registration for a key that is bound already.
    pub closed spec fn policy(self) -> DuplicatePolicy {
        self.policy
    }

    /// The keys of the table, in the order in which they were first registered.
    pub closed spec fn keys(self) -> Seq<RouteKey> {
        Seq::new(self.routes@.len(), |i: int| self.routes@[i].key())
    }

    /// An empty table that rejects a second registration of a key.
    pub fn new() -> (router: Self)
        ensures
            router@ == Map::<RouteKey, H>::empty(),
            router.keys() == Seq::<RouteKey>::empty(),
            router.policy() == DuplicatePolicy::Reject,
    {
        Self::with_policy(DuplicatePolicy::Reject)
    }

    /// An empty table with the given policy for keys that are registered twice.
    pub fn with_policy(policy: DuplicatePolicy) -> (router: Self)
        ensures
            router@ == Map::<RouteKey, H>::empty(),
            router.keys() == Seq::<RouteKey>::empty(),
            router.policy() == policy,
    {
        let router = Router { routes: Vec::new(), policy };
        assert(router@ =~= Map::<RouteKey, H>::empty());
        assert(router.keys() =~= Seq::<RouteKey>::empty());
        router
    }

    /// The number of routes. The keys of the table are those of its routes, each once.
    pub fn len(&self) -> (count: usize)
        ensures
            count == self.keys().len(),
            self.keys().no_duplicates(),
            forall|key: RouteKey| self@.contains_key(key) <==> self.keys().contains(key),
    {
        proof {
            use_type_invariant(self);
            let keys = self.keys();
            assert forall|i: int, j: int|
                0 <= i < keys.len() && 0 <= j < keys.len() && i != j implies keys[i]
                != keys[j] by {
                if i < j {
                    assert(self.routes@[i].key() != self.routes@[j].key());
                } else {
                    assert(self.routes@[j].key() != self.routes@[i].key());
                }
            }
            assert forall|key: RouteKey| self@.contains_key(key) <==> keys.contains(key) by {
                if binds(self.routes@, key) {
                    let i = position_of(self.routes@, key);
                    assert(keys[i] == key);
                }
                if keys.contains(key) {
                    let i = choose|i: int| 0 <= i < keys.len() && keys[i] == key;
                    assert(self.routes@[i].key() == key);
                }
            }
        }
        self.routes.len()
    }

    /// Whether the table has no route.
    pub fn is_empty(&self) -> (empty: bool)
        ensures
            empty == (self.keys().len() == 0),
    {
        self.routes.len() == 0
    }

    /// The route at a position in the order of first registration.
    pub fn route(&self, index: usize) -> (route: Option<&Route<H>>)
        ensures
            match route {
                Some(found) => {
                    &&& index < self.keys().len()
                    &&& found.key() == self.keys()[index as int]
                    &&& resolved(self@, found.key()) == Ok::<H, NoRouteMatch>(found.bound())
                },
                None => index >= self.keys().len(),
            },
    {
        if index < self.routes.len() {
            proof {
                use_type_invariant(self);
                lemma_table_at(self.routes@, index as int);
            }
            Some(&self.routes[index])
        } else {
            None
        }
    }

    fn position(&self, method: Method, path: &str) -> (found: Option<usize>)
        ensures
            match found {
                Some(i) => i < self.routes@.len() && self.routes@[i as int].key() == (
                    method,
                    path@,
                ),
                None => !binds(self.routes@, (method, path@)),
            },
    {
        let mut i: usize = 0;
        while i < self.routes.len()
            invariant
                0 <= i <= self.routes@.len(),
                forall|k: int| 0 <= k < i ==> (#[trigger] self.routes@[k]).key() != (method, path@),
            decreases self.routes@.len() - i,
        {
            let route = &self.routes[i];
            if route.method == method && same_text(route.path.as_str(), path) {
                return Some(i);
            }
            i += 1;
        }
        None
    }

    /// Binds a handler to a method and a literal path.
    ///
    /// A key that is bound already is rejected or rebound, as the table's policy says.
    /// A rejected registration leaves the table as it was.
    pub fn register(&mut self, method: Method, path: &str, handler: H) -> (outcome: Result<
        (),
        ConfigurationError,
    >)
        ensures
            final(self).policy() == old(self).policy(),
            outcome is Ok <==> accepts(old(self)@, old(self).policy(), (method, path@)),
            final(self)@ == after_register(
                old(self)@,
                old(self).policy(),
                (method, path@),
                handler,
            ),
            final(self).keys() == if old(self)@.contains_key((method, path@)) {
                old(self).keys()
            } else {
                old(self).keys().push((method, path@))
            },
            outcome matches Err(error) ==> error.method == method && error.path@ == path@,
    {
        proof {
            use_type_invariant(&*self);
        }
        let ghost keys = self.keys();
        let found = self.position(method, path);
        match found {
            Some(i) => {
                proof {
                    lemma_table_at(self.routes@, i as int);
                }
                match self.policy {
                    DuplicatePolicy::Reject => Err(
                        ConfigurationError { method, path: path.to_owned() },
                    ),
                    DuplicatePolicy::Overwrite => {
                        let route = Route { method, path: path.to_owned(), handler };
                        proof {
                            lemma_table_after_update(self.routes@, i as int, route);
                        }
                        let mut routes: Vec<Route<H>> = Vec::new();
                        core::mem::swap(&mut self.routes, &mut routes);
                        routes.set(i, route);
                        core::mem::swap(&mut self.routes, &mut routes);
                        assert(self.keys() =~= keys);
                        Ok(())
                    },
                }
            },
            None => {
                let route = Route { method, path: path.to_owned(), handler };
                proof {
                    lemma_table_after_push(self.routes@, route);
                }
                let mut routes: Vec<Route<H>> = Vec::new();
                core::mem::swap(&mut self.routes, &mut routes);
                routes.push(route);
                core::mem::swap(&mut self.routes, &mut routes);
                assert(self.keys() =~= keys.push((method, path@)));
                Ok(())
            },
        }
    }

    /// The handler bound to a method and path. Both must match exactly.
    pub fn resolve(&self, method: Method, path: &str) -> (found: Result<&H, NoRouteMatch>)
        ensures
            match found {
                Ok(handler) => resolved(self@, (method, path@)) == Ok::<H, NoRouteMatch>(*handler),
                Err(error) => resolved(self@, (method, path@)) == Err::<H, NoRouteMatch>(error),
            },
    {
        proof {
            use_type_invariant(self);
        }
        match self.position(method, path) {
            Some(i) => {
                proof {
                    lemma_table_at(self.routes@, i as int);
                }
                Ok(&self.routes[i].handler)
            },
            None => Err(NoRouteMatch),
        }
    }
}

/// A key resolves to the handler that it was last registered with, and a registration
/// changes what no other key resolves to. A key that was never registered has no match.
pub proof fn lemma_resolve_after_register<H>(
    table: Map<RouteKey, H>,
    policy: DuplicatePolicy,
    key: RouteKey,
    handler: H,
    other: RouteKey,
)
    ensures
        accepts(table, policy, key) ==> resolved(after_register(table, policy, key, handler), key)
            == Ok::<H, NoRouteMatch>(handler),
        other != key ==> resolved(after_register(table, policy, key, handler), other) == resolved(
            table,
            other,
        ),
        resolved(Map::<RouteKey, H>::empty(), other) == Err::<H, NoRouteMatch>(NoRouteMatch),
        !table.contains_key(other) ==> resolved(table, other) == Err::<H, NoRouteMatch>(
            NoRouteMatch,
        ),
{
}

/// Whether some registration of the sequence is for the key.
pub open spec fn asks_for<H>(asked: Seq<(RouteKey, H)>, key: RouteKey) -> bool {
    exists|i: int| 0 <= i < asked.len() && (#[trigger] asked[i]).0 == key
}

/// After any sequence of registrations on an empty table, the keys that resolve are
/// those that a registration was for, whatever the policy.
pub proof fn lemma_registered_keys_resolve<H>(
    policy: DuplicatePolicy,
    asked: Seq<(RouteKey, H)>,
    key: RouteKey,
)
    ensures
        after_registrations(Map::<RouteKey, H>::empty(), policy, asked).contains_key(key)
            <==> asks_for(asked, key),
        resolved(after_registrations(Map::<RouteKey, H>::empty(), policy, asked), key) is Ok
            <==> asks_for(asked, key),
    decreases asked.len(),
{
    if asked.len() > 0 {
        let before = asked.drop_last();
        let last = asked.len() - 1;
        lemma_registered_keys_resolve(policy, before, key);
        if asks_for(before, key) {
            let i = choose|i: int| 0 <= i < before.len() && (#[trigger] before[i]).0 == key;
            assert(asked[i].0 == key);
        }
        if asks_for(asked, key) {
            let i = choose|i: int| 0 <= i < asked.len() && (#[trigger] asked[i]).0 == key;
            if i < last {
                assert(before[i].0 == key);
            }
        }
        if asked[last].0 == key {
            assert(asks_for(asked, key));
        }
    }
}

/// A table that overwrites resolves a key to the handler of the last registration
/// that was for it.
pub proof fn lemma_last_registration_wins<H>(asked: Seq<(RouteKey, H)>, at: int)
    requires
        0 <= at < asked.len(),
        forall|later: int| at < later < asked.len() ==> (#[trigger] asked[later]).0 != asked[at].0,
    ensures
        resolved(
            after_registrations(Map::<RouteKey, H>::empty(), DuplicatePolicy::Overwrite, asked),
            asked[at].0,
        ) == Ok::<H, NoRouteMatch>(asked[at].1),
    decreases asked.len(),
{
    let last = asked.len() - 1;
    if at < last {
        let before = asked.drop_last();
        assert(asked[last].0 != asked[at].0);
        assert(before[at] == asked[at]);
        assert forall|later: int| at < later < before.len() implies (#[trigger] before[later]).0
            != before[at].0 by {
            assert(asked[later].0 != asked[at].0);
        }
        lemma_last_registration_wins(before, at);
    }
}

/// A table that rejects resolves a key to the handler of the first registration
/// that was for it.
pub proof fn lemma_first_registration_stays<H>(asked: Seq<(RouteKey, H)>, at: int)
    requires
        0 <= at < asked.len(),
        forall|earlier: int| 0 <= earlier < at ==> (#[trigger] asked[earlier]).0 != asked[at].0,
    ensures
        resolved(
            after_registrations(Map::<RouteKey, H>::empty(), DuplicatePolicy::Reject, asked),
            asked[at].0,
        ) == Ok::<H, NoRouteMatch>(asked[at].1),
    decreases asked.len(),
{
    let last = asked.len() - 1;
    let before = asked.drop_last();
    if at < last {
        assert(before[at] == asked[at]);
        assert forall|earlier: int| 0 <= earlier < at implies (#[trigger] before[earlier]).0
            != before[at].0 by {
            assert(asked[earlier].0 != asked[at].0);
        }
        lemma_first_registration_stays(before, at);
    } else {
        lemma_registered_keys_resolve(DuplicatePolicy::Reject, before, asked[at].0);
        if asks_for(before, asked[at].0) {
            let i = choose|i: int|
                0 <= i < before.len() && (#[trigger] before[i]).0 == asked[at].0;
            assert(asked[i].0 == asked[at].0);
        }
    }
}

/// Registering a key twice: a table that overwrites resolves the key to the second
/// handler; a table that rejects refuses the second registration and goes on
/// resolving the key to the first.
pub proof fn lemma_second_registration<H>(
    table: Map<RouteKey, H>,
    policy: DuplicatePolicy,
    key: RouteKey,
    first: H,
    second: H,
)
    requires
        accepts(table, policy, key),
    ensures
        ({
            let once = after_register(table, policy, key, first);
            let twice = after_register(once, policy, key, second);
            match policy {
                DuplicatePolicy::Overwrite => accepts(once, policy, key) && resolved(twice, key)
                    == Ok::<H, NoRouteMatch>(second),
                DuplicatePolicy::Reject => !accepts(once, policy, key) && twice == once && resolved(
                    twice,
                    key,
                ) == Ok::<H, NoRouteMatch>(first),
            }
        }),
{
}

} // verus!
