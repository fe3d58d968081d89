//! Route registration and lookup.
//!
//! During its one-time bootstrap a worker's script registers route names
//! against handlers; the table is immutable afterwards. A handler itself
//! lives inside the engine, so the table holds opaque references that the
//! shell resolves. The reserved builder route rebuilds the shared cache;
//! its name never looks like a URL path, so the externally reachable name
//! list never contains it.

use vstd::prelude::*;

use crate::json::Json;

verus! {

/// An opaque reference to a handler value held by the engine: the shell
/// keeps the real callable under this index.
#[derive(Debug, Clone, Copy, PartialEq, Eq)]
pub struct HandlerRef {
    pub id: usize,
}

/// The correlation token of one caller's one-shot reply channel: the shell
/// keeps the real channel under this index.
#[derive(Debug, Clone, Copy, PartialEq, Eq)]
pub struct ReplyToken {
    pub id: usize,
}

/// One inbound call: the route to run, the reply channel to answer on
/// (none for fire-and-forget internal triggers), and the named arguments.
#[derive(Debug)]
pub struct RouteRequest {
    pub route_name: String,
    pub response_channel: Option<ReplyToken>,
    pub route_args: Vec<(String, Json)>,
}

/// The name of the reserved builder route.
pub open spec fn builder_route_name() -> Seq<char> {
    "__create_cache"@
}

/// The reserved builder route's name, as a value.
pub fn builder_route() -> (s: String)
    ensures
        s@ == builder_route_name(),
{
    "__create_cache".to_owned()
}

/// Whether a route name is shaped like a URL path.
pub open spec fn spec_path_shaped(name: Seq<char>) -> bool {
    name.len() > 0 && name[0] == '/'
}

/// The reserved builder route name is not shaped like a path, so the
/// transport never exposes it.
pub proof fn lemma_builder_route_hidden()
    ensures
        !spec_path_shaped(builder_route_name()),
{
    reveal_strlit("__create_cache");
}

/// The handler a name resolves to: the latest registration wins, as a
/// repeated registration overwrites the earlier one.
pub open spec fn spec_route_lookup(t: Seq<(Seq<char>, HandlerRef)>, name: Seq<char>) -> Option<
    HandlerRef,
>
    decreases t.len(),
{
    if t.len() == 0 {
        None
    } else if t.last().0 == name {
        Some(t.last().1)
    } else {
        spec_route_lookup(t.drop_last(), name)
    }
}

/// Whether a name was registered at all.
pub open spec fn spec_registered(t: Seq<(Seq<char>, HandlerRef)>, name: Seq<char>) -> bool {
    spec_route_lookup(t, name) is Some
}

/// A name is registered exactly when some registration used it.
pub proof fn lemma_registered_occurs(t: Seq<(Seq<char>, HandlerRef)>, name: Seq<char>)
    ensures
        spec_registered(t, name) <==> exists|j: int| 0 <= j < t.len() && (#[trigger] t[j]).0
            == name,
    decreases t.len(),
{
    if t.len() > 0 {
        lemma_registered_occurs(t.drop_last(), name);
        if t.last().0 == name {
            assert(t[t.len() - 1].0 == name);
        } else if exists|j: int| 0 <= j < t.len() && (#[trigger] t[j]).0 == name {
            let j = choose|j: int| 0 <= j < t.len() && (#[trigger] t[j]).0 == name;
            assert(t.drop_last()[j].0 == name);
        }
    }
}

/// Whether `name` is among `names`.
pub open spec fn spec_name_listed(names: Seq<String>, name: Seq<char>) -> bool {
    exists|i: int| 0 <= i < names.len() && (#[trigger] names[i])@ == name
}

/// The route-name -> handler mapping one worker's bootstrap produced.
#[derive(Debug)]
pub struct RouteTable {
    entries: Vec<(String, HandlerRef)>,
}

impl View for RouteTable {
    type V = Seq<(Seq<char>, HandlerRef)>;

    closed spec fn view(&self) -> Seq<(Seq<char>, HandlerRef)> {
        Seq::new(self.entries@.len(), |i: int| (self.entries@[i].0@, self.entries@[i].1))
    }
}

impl RouteTable {
    /// An empty table.
    pub fn new() -> (r: RouteTable)
        ensures
            r@ == Seq::<(Seq<char>, HandlerRef)>::empty(),
    {
        let t = RouteTable { entries: Vec::new() };
        proof {
            assert(t@ =~= Seq::<(Seq<char>, HandlerRef)>::empty());
        }
        t
    }

    /// Record one route registration. Bootstrap-time only: the worker
    /// snapshots the table before serving.
    pub fn register(&mut self, path: String, handler: HandlerRef)
        ensures
            final(self)@ == old(self)@.push((path@, handler)),
    {
        let ghost before = self@;
        self.entries.push((path, handler));
        proof {
            assert(self@ =~= before.push((self.entries@.last().0@, self.entries@.last().1)));
        }
    }

    /// Record the reserved builder route's handler.
    pub fn register_builder(&mut self, handler: HandlerRef)
        ensures
            final(self)@ == old(self)@.push((builder_route_name(), handler)),
    {
        self.register(builder_route(), handler);
    }

    /// The handler registered under `name`, the latest registration
    /// winning; `None` for an unregistered name.
    #[verifier::loop_isolation(false)]
    pub fn lookup(&self, name: &String) -> (r: Option<HandlerRef>)
        ensures
            r == spec_route_lookup(self@, name@),
    {
        proof {
            assert(self@.take(self.entries@.len() as int) =~= self@);
        }
        let mut k: usize = self.entries.len();
        while k > 0
            invariant
                0 <= k <= self.entries@.len(),
                spec_route_lookup(self@, name@) == spec_route_lookup(
                    self@.take(k as int),
                    name@,
                ),
            decreases k,
        {
            k = k - 1;
            if self.entries[k].0.eq(name) {
                proof {
                    assert(self@.take(k as int + 1).last() == self@[k as int]);
                }
                return Some(self.entries[k].1);
            }
            proof {
                assert(self@.take(k as int + 1).last() == self@[k as int]);
                assert(self@.take(k as int + 1).drop_last() =~= self@.take(k as int));
            }
        }
        proof {
            assert(self@.take(0) =~= Seq::<(Seq<char>, HandlerRef)>::empty());
        }
        None
    }

    /// Whether `name` is registered.
    pub fn contains(&self, name: &String) -> (r: bool)
        ensures
            r == spec_registered(self@, name@),
    {
        self.lookup(name).is_some()
    }

    /// How many registrations the table holds.
    pub fn len(&self) -> (n: usize)
        ensures
            n == self@.len(),
    {
        self.entries.len()
    }

    /// The registered names that are shaped like URL paths, each once, in
    /// first-registration order: what the transport builds its path table
    /// from. Every path-shaped registered name is listed, nothing else is,
    /// and the reserved builder route never appears.
    #[verifier::loop_isolation(false)]
    pub fn route_names(&self) -> (names: Vec<String>)
        ensures
            forall|i: int|
                0 <= i < names@.len() ==> spec_registered(self@, (#[trigger] names@[i])@)
                    && spec_path_shaped(names@[i]@),
            forall|name: Seq<char>|
                spec_registered(self@, name) && spec_path_shaped(name) ==> spec_name_listed(
                    names@,
                    name,
                ),
            forall|i: int, j: int|
                0 <= i < j < names@.len() ==> (#[trigger] names@[i])@ != (#[trigger] names@[j])@,
            !spec_name_listed(names@, builder_route_name()),
    {
        let mut names: Vec<String> = Vec::new();
        let mut k: usize = 0;
        while k < self.entries.len()
            invariant
                0 <= k <= self.entries@.len(),
                forall|i: int|
                    0 <= i < names@.len() ==> spec_registered(self@, (#[trigger] names@[i])@)
                        && spec_path_shaped(names@[i]@),
                forall|name: Seq<char>|
                    (exists|j: int|
                        0 <= j < k && (#[trigger] self@[j]).0 == name) && spec_path_shaped(name)
                        ==> spec_name_listed(names@, name),
                forall|i: int, j: int|
                    0 <= i < j < names@.len() ==> (#[trigger] names@[i])@ != (
                    #[trigger] names@[j])@,
            decreases self.entries@.len() - k,
        {
            let ghost at_entry = names@;
            let name = &self.entries[k].0;
            proof {
                assert((#[trigger] self@[k as int]).0 == name@);
            }
            let shaped = if name.as_str().unicode_len() > 0 {
                name.as_str().get_char(0) == '/'
            } else {
                false
            };
            let mut seen = false;
            if shaped {
                let mut i: usize = 0;
                while i < names.len()
                    invariant
                        0 <= i <= names@.len(),
                        names@ == at_entry,
                        seen == exists|j: int|
                            0 <= j < i && (#[trigger] names@[j])@ == name@,
                    decreases names@.len() - i,
                {
                    if names[i].eq(name) {
                        seen = true;
                    }
                    i = i + 1;
                }
                if !seen {
                    names.push(name.clone());
                    proof {
                        lemma_registered_occurs(self@, name@);
                        assert(names@.last()@ == name@);
                        assert forall|i: int| 0 <= i < names@.len() implies spec_registered(
                            self@,
                            (#[trigger] names@[i])@,
                        ) && spec_path_shaped(names@[i]@) by {
                            if i < at_entry.len() {
                                assert(names@[i] == at_entry[i]);
                            }
                        }
                    }
                }
            }
            proof {
                assert forall|name0: Seq<char>|
                    (exists|j: int|
                        0 <= j < k as int + 1 && (#[trigger] self@[j]).0 == name0)
                        && spec_path_shaped(name0) implies spec_name_listed(names@, name0) by {
                    let j = choose|j: int|
                        0 <= j < k as int + 1 && (#[trigger] self@[j]).0 == name0;
                    if j < k as int {
                        assert(spec_name_listed(at_entry, name0));
                        let i = choose|i: int|
                            0 <= i < at_entry.len() && (#[trigger] at_entry[i])@ == name0;
                        assert(0 <= i < names@.len() && (#[trigger] names@[i])@ == name0);
                    } else {
                        assert(name0 == name@);
                        if seen {
                            assert(names@ == at_entry);
                        } else {
                            let w = names@.len() - 1;
                            assert(0 <= w < names@.len() && (#[trigger] names@[w])@ == name@);
                        }
                    }
                }
            }
            k = k + 1;
        }
        proof {
            assert forall|name0: Seq<char>|
                spec_registered(self@, name0) && spec_path_shaped(name0) implies spec_name_listed(
                names@,
                name0,
            ) by {
                lemma_registered_occurs(self@, name0);
            }
            lemma_builder_route_hidden();
            assert(!spec_name_listed(names@, builder_route_name())) by {
                if spec_name_listed(names@, builder_route_name()) {
                    let i = choose|i: int|
                        0 <= i < names@.len() && (#[trigger] names@[i])@
                            == builder_route_name();
                    assert(spec_path_shaped(names@[i]@));
                }
            }
        }
        names
    }
}

/// The table view of a registration sequence.
pub open spec fn spec_table_of(regs: Seq<(String, HandlerRef)>) -> Seq<(Seq<char>, HandlerRef)> {
    Seq::new(regs.len(), |i: int| (regs[i].0@, regs[i].1))
}

impl RouteTable {
    /// The table a bootstrap run produces: exactly its registration
    /// sequence, in order. Re-running the same sequence rebuilds the same
    /// table, which is what makes worker bootstrap deterministic.
    #[verifier::loop_isolation(false)]
    pub fn from_registrations(regs: &Vec<(String, HandlerRef)>) -> (r: RouteTable)
        ensures
            r@ == spec_table_of(regs@),
    {
        let mut table = RouteTable::new();
        proof {
            assert(table@ =~= spec_table_of(regs@).take(0));
        }
        let mut k: usize = 0;
        while k < regs.len()
            invariant
                0 <= k <= regs@.len(),
                table@ == spec_table_of(regs@).take(k as int),
            decreases regs@.len() - k,
        {
            let name = regs[k].0.clone();
            let handler = regs[k].1;
            table.register(name, handler);
            proof {
                assert(spec_table_of(regs@).take(k as int + 1) =~= spec_table_of(
                    regs@,
                ).take(k as int).push((regs@[k as int].0@, regs@[k as int].1)));
            }
            k += 1;
        }
        proof {
            assert(spec_table_of(regs@).take(regs@.len() as int) =~= spec_table_of(regs@));
        }
        table
    }
}

/// Bootstrap determinism: two tables built from the same registration
/// sequence agree on every lookup, hence on membership and on the exposed
/// route names.
pub proof fn lemma_bootstrap_deterministic(
    t1: Seq<(Seq<char>, HandlerRef)>,
    t2: Seq<(Seq<char>, HandlerRef)>,
    regs: Seq<(Seq<char>, HandlerRef)>,
)
    requires
        t1 == regs,
        t2 == regs,
    ensures
        forall|name: Seq<char>| spec_route_lookup(t1, name) == spec_route_lookup(t2, name),
        forall|name: Seq<char>| spec_registered(t1, name) == spec_registered(t2, name),
{
}

/// The internal request that asks for a cache rebuild: the reserved
/// builder route, no reply channel, no arguments. Fire-and-forget: the
/// caller is not told when the rebuild finished.
pub fn rebuild_request() -> (r: RouteRequest)
    ensures
        r.route_name@ == builder_route_name(),
        r.response_channel is None,
        r.route_args@.len() == 0,
{
    RouteRequest {
        route_name: builder_route(),
        response_channel: None,
        route_args: Vec::new(),
    }
}

} // verus!
