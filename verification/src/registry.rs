//! The command registry: from the name of a command to its handler and its
//! help text.

use crate::command::{CommandError, Handler};
use crate::token::texts;
use vstd::prelude::*;

verus! {

/// What the registry keeps for one name.
pub struct CommandInfo {
    pub handler: Handler,
    pub help: String,
}

/// A registered command as a plain value.
pub struct CommandSpec {
    pub handler: Handler,
    pub help: Seq<char>,
}

impl View for CommandInfo {
    type V = CommandSpec;

    open spec fn view(&self) -> CommandSpec {
        CommandSpec { handler: self.handler, help: self.help@ }
    }
}

/// The registry as a plain value: a map from names to commands.
pub type Registry = Map<Seq<char>, CommandSpec>;

/// What looking up `name` and handing `tokens` to its handler gives: nothing
/// where the name is not registered, else what the handler makes of the
/// tokens.
pub open spec fn dispatch(registry: Registry, name: Seq<char>, tokens: Seq<Seq<char>>) -> Option<
    Result<[u8; 3], CommandError>,
> {
    if registry.contains_key(name) {
        Some(registry[name].handler.outcome(tokens))
    } else {
        None
    }
}

/// What a list of pairs of strings holds, as plain text.
pub open spec fn pair_texts(pairs: Seq<(String, String)>) -> Seq<(Seq<char>, Seq<char>)> {
    Seq::new(pairs.len(), |i: int| (pairs[i].0@, pairs[i].1@))
}

/// Tells whether `listing` names each command of `registry` exactly once,
/// each with its help text, and nothing else.
pub open spec fn is_listing(listing: Seq<(Seq<char>, Seq<char>)>, registry: Registry) -> bool {
    &&& forall|i: int|
        0 <= i < listing.len() ==> registry.contains_key(#[trigger] listing[i].0)
            && registry[listing[i].0].help == listing[i].1
    &&& forall|name: Seq<char>| #[trigger]
        registry.contains_key(name) ==> exists|i: int|
            0 <= i < listing.len() && #[trigger] listing[i].0 == name
    &&& forall|i: int, j: int|
        0 <= i < j < listing.len() ==> #[trigger] listing[i].0 != #[trigger] listing[j].0
}

/// The commands of the console, by name. A name is registered at most once;
/// registering it again replaces what was there.
pub struct Commands {
    names: Vec<String>,
    infos: Vec<CommandInfo>,
}

impl View for Commands {
    type V = Registry;

    closed spec fn view(&self) -> Registry {
        Map::new(
            |name: Seq<char>| exists|i: int| self.holds(i, name),
            |name: Seq<char>| self.infos[choose|i: int| self.holds(i, name)]@,
        )
    }
}

impl Commands {
    /// Tells whether slot `i` is the one of `name`.
    spec fn holds(&self, i: int, name: Seq<char>) -> bool {
        0 <= i < self.names.len() && self.names[i]@ == name
    }

    /// The invariant of the registry: every name has one slot.
    pub closed spec fn wf(&self) -> bool {
        &&& self.names.len() == self.infos.len()
        &&& forall|i: int, j: int|
            0 <= i < j < self.names.len() ==> self.names[i]@ != self.names[j]@
    }

    proof fn lemma_slot(&self, i: int)
        requires
            self.wf(),
            0 <= i < self.names.len(),
        ensures
            self@.contains_key(self.names[i]@),
            self@[self.names[i]@] == self.infos[i]@,
    {
        let name = self.names[i]@;
        assert(self.holds(i, name));
        let j = choose|j: int| self.holds(j, name);
        assert(j == i);
    }

    /// An empty registry.
    pub fn new() -> (commands: Commands)
        ensures
            commands.wf(),
            commands@ == Registry::empty(),
    {
        let commands = Commands { names: Vec::new(), infos: Vec::new() };
        assert(commands@ =~= Registry::empty());
        commands
    }

    /// The slot of `name`, if it has one.
    fn position(&self, name: &String) -> (slot: Option<usize>)
        requires
            self.wf(),
        ensures
            match slot {
                Some(i) => self.holds(i as int, name@),
                None => !self@.contains_key(name@),
            },
    {
        let mut i: usize = 0;
        while i < self.names.len()
            invariant
                i <= self.names.len(),
                forall|j: int| 0 <= j < i ==> !self.holds(j, name@),
            decreases self.names.len() - i,
        {
            if self.names[i] == *name {
                return Some(i);
            }
            i = i + 1;
        }
        None
    }

    /// Registers `name` with a handler and a help text. If the name was
    /// registered before, the new handler and help text take the place of
    /// the old ones.
    pub fn add(&mut self, name: String, handler: Handler, help: String)
        requires
            old(self).wf(),
        ensures
            final(self).wf(),
            final(self)@ == old(self)@.insert(name@, (CommandSpec { handler, help: help@ })),
    {
        let info = CommandInfo { handler, help };
        let ghost entry = info@;
        let ghost key = name@;
        match self.position(&name) {
            Some(i) => {
                self.infos.set(i, info);
                proof {
                    assert(self.wf());
                    assert forall|k: Seq<char>| #[trigger]
                        self@.contains_key(k) == old(self)@.insert(key, entry).contains_key(
                            k,
                        ) by {
                        if self@.contains_key(k) {
                            let j = choose|j: int| self.holds(j, k);
                            assert(old(self).holds(j, k));
                        }
                        if old(self)@.contains_key(k) {
                            let j = choose|j: int| old(self).holds(j, k);
                            assert(self.holds(j, k));
                        }
                        if k == key {
                            assert(self.holds(i as int, k));
                        }
                    }
                    assert forall|k: Seq<char>| #[trigger] self@.contains_key(k) implies self@[k]
                        == old(self)@.insert(key, entry)[k] by {
                        let j = choose|j: int| self.holds(j, k);
                        self.lemma_slot(j);
                        if k != key {
                            assert(old(self).holds(j, k));
                            old(self).lemma_slot(j);
                        }
                    }
                    assert(self@ =~= old(self)@.insert(key, entry));
                }
            },
            None => {
                self.names.push(name);
                self.infos.push(info);
                proof {
                    let last = self.names.len() - 1;
                    assert forall|a: int, b: int| 0 <= a < b < self.names.len() implies self.names[a]@
                        != self.names[b]@ by {
                        if b == last {
                            assert(!old(self).holds(a, key));
                        }
                    }
                    assert(self.wf());
                    assert forall|k: Seq<char>| #[trigger]
                        self@.contains_key(k) == old(self)@.insert(key, entry).contains_key(
                            k,
                        ) by {
                        if self@.contains_key(k) {
                            let j = choose|j: int| self.holds(j, k);
                            if j != last {
                                assert(old(self).holds(j, k));
                            }
                        }
                        if old(self)@.contains_key(k) {
                            let j = choose|j: int| old(self).holds(j, k);
                            assert(self.holds(j, k));
                        }
                        if k == key {
                            assert(self.holds(last, k));
                        }
                    }
                    assert forall|k: Seq<char>| #[trigger] self@.contains_key(k) implies self@[k]
                        == old(self)@.insert(key, entry)[k] by {
                        let j = choose|j: int| self.holds(j, k);
                        self.lemma_slot(j);
                        if k != key {
                            assert(j != last);
                            assert(old(self).holds(j, k));
                            old(self).lemma_slot(j);
                        } else {
                            assert(self.holds(last, k));
                            assert(j == last);
                        }
                    }
                    assert(self@ =~= old(self)@.insert(key, entry));
                }
            },
        }
    }

    /// Looks up `name` and, if it is registered, hands `parts` to its
    /// handler. The registry stays as it is.
    pub fn run(&mut self, name: String, parts: Vec<&str>) -> (message: Option<[u8; 3]>)
        requires
            old(self).wf(),
            old(self)@.contains_key(name@) ==> old(self)@[name@].handler.outcome(texts(parts@))
                is Ok,
        ensures
            *final(self) == *old(self),
            message is Some <==> old(self)@.contains_key(name@),
            match message {
                Some(bytes) => dispatch(old(self)@, name@, texts(parts@)) == Some(
                    Ok::<[u8; 3], CommandError>(bytes),
                ),
                None => dispatch(old(self)@, name@, texts(parts@)) is None,
            },
    {
        match self.position(&name) {
            Some(i) => {
                proof {
                    self.lemma_slot(i as int);
                }
                Some(self.infos[i].handler.invoke(parts))
            },
            None => None,
        }
    }

    /// Looks up `name` and, if it is registered, hands `parts` to its
    /// handler, which may refuse them.
    pub fn try_run(&self, name: &str, parts: &Vec<&str>) -> (result: Option<
        Result<[u8; 3], CommandError>,
    >)
        requires
            self.wf(),
        ensures
            result == dispatch(self@, name@, texts(parts@)),
            result is Some <==> self@.contains_key(name@),
    {
        let key = name.to_owned();
        match self.position(&key) {
            Some(i) => {
                proof {
                    self.lemma_slot(i as int);
                }
                Some(self.infos[i].handler.try_invoke(parts))
            },
            None => None,
        }
    }

    /// The registered names, each with its help text, in no particular
    /// order.
    pub fn list(&self) -> (listing: Vec<(String, String)>)
        requires
            self.wf(),
        ensures
            is_listing(pair_texts(listing@), self@),
    {
        let mut listing: Vec<(String, String)> = Vec::new();
        let mut i: usize = 0;
        while i < self.names.len()
            invariant
                self.wf(),
                i <= self.names.len(),
                listing.len() == i,
                forall|j: int|
                    0 <= j < i ==> (#[trigger] listing[j]).0@ == self.names[j]@ && listing[j].1@
                        == self.infos[j].help@,
            decreases self.names.len() - i,
        {
            listing.push((self.names[i].clone(), self.infos[i].help.clone()));
            i = i + 1;
        }
        proof {
            let pairs = pair_texts(listing@);
            assert forall|j: int| 0 <= j < pairs.len() implies self@.contains_key(
                #[trigger] pairs[j].0,
            ) && self@[pairs[j].0].help == pairs[j].1 by {
                self.lemma_slot(j);
            }
            assert forall|name: Seq<char>| #[trigger] self@.contains_key(name) implies exists|
                j: int,
            |
                0 <= j < pairs.len() && #[trigger] pairs[j].0 == name by {
                let j = choose|j: int| self.holds(j, name);
                assert(pairs[j].0 == name);
            }
        }
        listing
    }
}

/// A name that is not registered is dispatched to no handler, whatever the
/// tokens are.
pub proof fn lemma_dispatch_unregistered(
    registry: Registry,
    name: Seq<char>,
    tokens: Seq<Seq<char>>,
)
    requires
        !registry.contains_key(name),
    ensures
        dispatch(registry, name, tokens) is None,
{
}

/// After a name has been registered, dispatching it gives exactly what the
/// registered handler makes of the tokens.
pub proof fn lemma_dispatch_registered(
    registry: Registry,
    name: Seq<char>,
    command: CommandSpec,
    tokens: Seq<Seq<char>>,
)
    ensures
        dispatch(registry.insert(name, command), name, tokens) == Some(
            command.handler.outcome(tokens),
        ),
{
}

/// Registering a name twice leaves the second registration only: the
/// registry is as if the first had never been made, and dispatching the name
/// goes to the second handler.
pub proof fn lemma_last_registration_wins(
    registry: Registry,
    name: Seq<char>,
    first: CommandSpec,
    second: CommandSpec,
    tokens: Seq<Seq<char>>,
)
    ensures
        registry.insert(name, first).insert(name, second) == registry.insert(name, second),
        dispatch(registry.insert(name, first).insert(name, second), name, tokens) == Some(
            second.handler.outcome(tokens),
        ),
{
    assert(registry.insert(name, first).insert(name, second) =~= registry.insert(name, second));
}

/// Registering a name changes nothing for any other name.
pub proof fn lemma_registration_is_local(
    registry: Registry,
    name: Seq<char>,
    command: CommandSpec,
    other: Seq<char>,
    tokens: Seq<Seq<char>>,
)
    requires
        other != name,
    ensures
        dispatch(registry.insert(name, command), other, tokens) == dispatch(
            registry,
            other,
            tokens,
        ),
{
}

/// Two different names can be registered in either order: the registry is
/// the same.
pub proof fn lemma_registration_order(
    registry: Registry,
    name_a: Seq<char>,
    command_a: CommandSpec,
    name_b: Seq<char>,
    command_b: CommandSpec,
)
    requires
        name_a != name_b,
    ensures
        registry.insert(name_a, command_a).insert(name_b, command_b) == registry.insert(
            name_b,
            command_b,
        ).insert(name_a, command_a),
{
    assert(registry.insert(name_a, command_a).insert(name_b, command_b) =~= registry.insert(
        name_b,
        command_b,
    ).insert(name_a, command_a));
}

/// A listing holds a pair of name and help text exactly if the name is
/// registered with that help text.
pub proof fn lemma_listing_pairs(
    listing: Seq<(Seq<char>, Seq<char>)>,
    registry: Registry,
    name: Seq<char>,
    help: Seq<char>,
)
    requires
        is_listing(listing, registry),
    ensures
        listing.contains((name, help)) <==> registry.contains_key(name) && registry[name].help
            == help,
{
    if listing.contains((name, help)) {
        let i = choose|i: int| 0 <= i < listing.len() && listing[i] == (name, help);
        assert(registry.contains_key(listing[i].0));
    }
    if registry.contains_key(name) && registry[name].help == help {
        let i = choose|i: int| 0 <= i < listing.len() && #[trigger] listing[i].0 == name;
        assert(listing[i] == (name, help));
    }
}

/// Two listings of one registry hold the same pairs and have the same
/// length: they differ in order at most.
pub proof fn lemma_listings_agree(
    first: Seq<(Seq<char>, Seq<char>)>,
    second: Seq<(Seq<char>, Seq<char>)>,
    registry: Registry,
)
    requires
        is_listing(first, registry),
        is_listing(second, registry),
    ensures
        first.to_set() == second.to_set(),
        first.len() == second.len(),
{
    assert forall|pair: (Seq<char>, Seq<char>)| first.contains(pair) == second.contains(pair) by {
        lemma_listing_pairs(first, registry, pair.0, pair.1);
        lemma_listing_pairs(second, registry, pair.0, pair.1);
    }
    assert(first.to_set() =~= second.to_set());
    assert(first.no_duplicates()) by {
        assert forall|i: int, j: int| 0 <= i < first.len() && 0 <= j < first.len() && i
            != j implies first[i] != first[j] by {
            if i < j {
                assert(first[i].0 != first[j].0);
            } else {
                assert(first[j].0 != first[i].0);
            }
        }
    }
    assert(second.no_duplicates()) by {
        assert forall|i: int, j: int| 0 <= i < second.len() && 0 <= j < second.len() && i
            != j implies second[i] != second[j] by {
            if i < j {
                assert(second[i].0 != second[j].0);
            } else {
                assert(second[j].0 != second[i].0);
            }
        }
    }
    first.unique_seq_to_set();
    second.unique_seq_to_set();
}

} // verus!
