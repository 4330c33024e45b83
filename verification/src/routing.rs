//! Type-erased procedure sets and their composition: a set answers to a list
//! of procedure names and routes each call to the dispatcher that defined the
//! name. Merging two sets answers to the names of both, with no name defined
//! twice.

use vstd::prelude::*;
use crate::text::same_text;

verus! {

/// The position of the first occurrence of `name` in `names`.
pub open spec fn find_first(names: Seq<Seq<char>>, name: Seq<char>) -> Option<int>
    decreases names.len(),
{
    if names.len() == 0 {
        None
    } else if names[0] == name {
        Some(0)
    } else {
        match find_first(names.drop_first(), name) {
            Some(i) => Some(i + 1),
            None => None,
        }
    }
}

/// The characters of each name.
pub open spec fn name_views(names: Seq<&'static str>) -> Seq<Seq<char>> {
    names.map_values(|n: &'static str| n@)
}

/// A procedure set: the names it answers to, and for each name the
/// dispatcher (a position in its list of dispatchers) that handles it. A name
/// the set does not define is handed to its last dispatcher, which answers
/// it as unknown.
pub struct Procedures<D> {
    names: Vec<&'static str>,
    owners: Vec<usize>,
    dispatchers: Vec<D>,
}

impl<D> Procedures<D> {
    #[verifier::type_invariant]
    spec fn well_formed(self) -> bool {
        &&& self.names@.len() == self.owners@.len()
        &&& self.dispatchers@.len() >= 1
        &&& forall|i: int| 0 <= i < self.owners@.len() ==> #[trigger] self.owners@[i] < self.dispatchers@.len()
    }

    /// The names this set answers to, in order.
    pub closed spec fn name_list(&self) -> Seq<&'static str> {
        self.names@
    }

    /// The dispatchers of this set, in order.
    pub closed spec fn dispatcher_list(&self) -> Seq<D> {
        self.dispatchers@
    }

    /// The position of the dispatcher a call to `name` is routed to.
    pub closed spec fn route_of(&self, name: Seq<char>) -> int {
        match find_first(name_views(self.names@), name) {
            Some(i) => self.owners@[i] as int,
            None => self.dispatchers@.len() - 1,
        }
    }

    /// Whether this set defines `name`.
    pub open spec fn defines(&self, name: Seq<char>) -> bool {
        name_views(self.name_list()).contains(name)
    }

    /// Bundles a dispatch function with the procedure names it answers to.
    /// Every call is routed to it.
    pub fn new(names: &'static [&'static str], dispatch: D) -> (r: Self)
        ensures
            r.name_list() == names@,
            r.dispatcher_list() == seq![dispatch],
            forall|name: Seq<char>| #[trigger] r.route_of(name) == 0,
    {
        let mut list: Vec<&'static str> = Vec::new();
        let mut owners: Vec<usize> = Vec::new();
        let mut i: usize = 0;
        while i < names.len()
            invariant
                i <= names.len(),
                list@ == names@.take(i as int),
                owners@.len() == i,
                forall|k: int| 0 <= k < i ==> #[trigger] owners@[k] == 0,
            decreases names.len() - i,
        {
            list.push(names[i]);
            owners.push(0);
            i += 1;
            assert(list@ =~= names@.take(i as int));
        }
        assert(names@.take(names.len() as int) =~= names@);
        let mut dispatchers: Vec<D> = Vec::new();
        dispatchers.push(dispatch);
        let r = Procedures { names: list, owners, dispatchers };
        assert forall|name: Seq<char>| #[trigger] r.route_of(name) == 0 by {
            lemma_find_first(name_views(r.names@), name);
        }
        r
    }

    /// The procedure names this set answers to.
    pub fn names(&self) -> (r: &[&'static str])
        ensures
            r@ == self.name_list(),
    {
        self.names.as_slice()
    }

    /// Whether this set defines `procedure`.
    pub fn contains(&self, procedure: &str) -> (r: bool)
        ensures
            r == self.defines(procedure@),
    {
        match self.position(procedure) {
            Some(_) => true,
            None => false,
        }
    }

    /// The position of the first name equal to `procedure`.
    fn position(&self, procedure: &str) -> (r: Option<usize>)
        ensures
            match find_first(name_views(self.name_list()), procedure@) {
                Some(i) => r == Some(i as usize),
                None => r is None,
            },
            find_first(name_views(self.name_list()), procedure@) is Some <==> self.defines(procedure@),
            r matches Some(i) ==> find_first(name_views(self.name_list()), procedure@) == Some(i as int),
    {
        proof {
            lemma_find_first(name_views(self.names@), procedure@);
        }
        let mut i: usize = 0;
        while i < self.names.len()
            invariant
                i <= self.names@.len(),
                forall|k: int| 0 <= k < i ==> self.names@[k]@ != procedure@,
            decreases self.names.len() - i,
        {
            if same_text(self.names[i], procedure) {
                proof {
                    lemma_find_first_is(name_views(self.names@), procedure@, i as int);
                    lemma_find_first(name_views(self.names@), procedure@);
                }
                return Some(i);
            }
            i += 1;
        }
        proof {
            assert forall|k: int| 0 <= k < name_views(self.names@).len() implies name_views(self.names@)[k] != procedure@ by {}
            lemma_find_first_none(name_views(self.names@), procedure@);
        }
        None
    }

    /// The dispatcher a call to `procedure` is routed to: the one that
    /// defined the name, or the last one when no dispatcher did.
    pub fn route(&self, procedure: &str) -> (r: &D)
        ensures
            0 <= self.route_of(procedure@) < self.dispatcher_list().len(),
            *r == self.dispatcher_list()[self.route_of(procedure@)],
    {
        proof {
            use_type_invariant(self);
            lemma_find_first(name_views(self.names@), procedure@);
        }
        match self.position(procedure) {
            Some(i) => {
                assert(self.route_of(procedure@) == self.owners@[i as int]);
                &self.dispatchers[self.owners[i]]
            },
            None => &self.dispatchers[self.dispatchers.len() - 1],
        }
    }

    /// The first name of `other`, in its order, that this set also defines.
    pub fn shared_name(&self, other: &Self) -> (r: Option<&'static str>)
        ensures
            match r {
                Some(n) => other.name_list().contains(n) && self.defines(n@),
                None => forall|i: int| 0 <= i < other.name_list().len()
                    ==> !self.defines(#[trigger] other.name_list()[i]@),
            },
            r matches Some(n) ==> exists|i: int| 0 <= i < other.name_list().len()
                && other.name_list()[i] == n
                && forall|j: int| 0 <= j < i ==> !self.defines(#[trigger] other.name_list()[j]@),
    {
        let mut i: usize = 0;
        while i < other.names.len()
            invariant
                i <= other.names@.len(),
                forall|j: int| 0 <= j < i ==> !self.defines(#[trigger] other.names@[j]@),
            decreases other.names.len() - i,
        {
            if self.contains(other.names[i]) {
                assert(other.name_list()[i as int] == other.names@[i as int]);
                return Some(other.names[i]);
            }
            i += 1;
        }
        None
    }

    /// Combines two procedure sets into one that answers to the names of
    /// both: a name `self` defines is routed as `self` routes it, and any
    /// other call as `other` routes it. A name defined by both is a
    /// registration mistake, so the sets must not share one.
    pub fn merge(self, other: Self) -> (r: Self)
        requires
            forall|i: int| 0 <= i < other.name_list().len() ==> !self.defines(#[trigger] other.name_list()[i]@),
        ensures
            r.name_list() == self.name_list() + other.name_list(),
            r.dispatcher_list() == self.dispatcher_list() + other.dispatcher_list(),
            forall|name: Seq<char>| #[trigger] r.route_of(name) == if self.defines(name) {
                self.route_of(name)
            } else {
                self.dispatcher_list().len() + other.route_of(name)
            },
    {
        proof {
            use_type_invariant(&self);
            use_type_invariant(&other);
        }
        let ghost a = self;
        let ghost b = other;
        let Procedures { names: a_names, owners: a_owners, dispatchers: a_disp } = self;
        let Procedures { names: b_names, owners: b_owners, dispatchers: b_disp } = other;
        let shift: usize = a_disp.len();
        let mut dispatchers = a_disp;
        let mut rest = b_disp;
        dispatchers.append(&mut rest);
        let total: usize = dispatchers.len();
        let mut names = a_names;
        let mut owners = a_owners;
        let mut i: usize = 0;
        while i < b_names.len()
            invariant
                i <= b_names@.len(),
                b_names@ == b.names@,
                b_owners@ == b.owners@,
                b.names@.len() == b.owners@.len(),
                a.names@.len() == a.owners@.len(),
                shift == a.dispatchers@.len(),
                total == a.dispatchers@.len() + b.dispatchers@.len(),
                names@ == a.names@ + b.names@.take(i as int),
                owners@.len() == names@.len(),
                forall|k: int| 0 <= k < a.owners@.len() ==> #[trigger] owners@[k] == a.owners@[k],
                forall|k: int| 0 <= k < i ==> #[trigger] owners@[a.owners@.len() + k] == b.owners@[k] + shift,
                forall|k: int| 0 <= k < b.owners@.len() ==> #[trigger] b.owners@[k] < b.dispatchers@.len(),
                forall|k: int| 0 <= k < a.owners@.len() ==> #[trigger] a.owners@[k] < a.dispatchers@.len(),
                dispatchers@ == a.dispatchers@ + b.dispatchers@,
            decreases b_names.len() - i,
        {
            names.push(b_names[i]);
            owners.push(b_owners[i] + shift);
            i += 1;
            assert(names@ =~= a.names@ + b.names@.take(i as int));
        }
        proof {
            assert(b.names@.take(b.names@.len() as int) =~= b.names@);
            assert(name_views(names@) =~= name_views(a.names@) + name_views(b.names@));
            assert forall|name: Seq<char>| true implies #[trigger] find_first(name_views(names@), name) == match find_first(name_views(a.names@), name) {
                Some(k) => Some(k),
                None => match find_first(name_views(b.names@), name) {
                    Some(k) => Some(k + a.names@.len()),
                    None => None,
                },
            } by {
                lemma_find_first_append(name_views(a.names@), name_views(b.names@), name);
            }
        }
        proof {
            assert forall|k: int| 0 <= k < owners@.len() implies #[trigger] owners@[k] < dispatchers@.len() by {
                if k >= a.owners@.len() {
                    assert(owners@[a.owners@.len() + (k - a.owners@.len())] == b.owners@[k - a.owners@.len()] + shift);
                }
            }
        }
        let r = Procedures { names, owners, dispatchers };
        proof {
            assert forall|name: Seq<char>| #[trigger] r.route_of(name) == if a.defines(name) {
                a.route_of(name)
            } else {
                a.dispatcher_list().len() + b.route_of(name)
            } by {
                lemma_find_first(name_views(a.names@), name);
                lemma_find_first(name_views(b.names@), name);
                assert(find_first(name_views(r.names@), name) == match find_first(name_views(a.names@), name) {
                    Some(k) => Some(k),
                    None => match find_first(name_views(b.names@), name) {
                        Some(k) => Some(k + a.names@.len()),
                        None => None,
                    },
                });
                match find_first(name_views(a.names@), name) {
                    Some(k) => {},
                    None => match find_first(name_views(b.names@), name) {
                        Some(k) => {
                            assert(r.owners@[a.owners@.len() + k] == b.owners@[k] + shift);
                        },
                        None => {},
                    },
                }
            }
        }
        r
    }
}

/// `find_first` finds an occurrence exactly when there is one, and the one
/// it finds is the first.
proof fn lemma_find_first(names: Seq<Seq<char>>, name: Seq<char>)
    ensures
        match find_first(names, name) {
            Some(i) => 0 <= i < names.len() && names[i] == name
                && forall|j: int| 0 <= j < i ==> names[j] != name,
            None => !names.contains(name),
        },
        find_first(names, name) is Some <==> names.contains(name),
    decreases names.len(),
{
    if names.len() > 0 {
        lemma_find_first(names.drop_first(), name);
        if names[0] != name {
            match find_first(names.drop_first(), name) {
                Some(i) => {
                    assert forall|j: int| 0 <= j < i + 1 implies names[j] != name by {
                        if j > 0 {
                            assert(names[j] == names.drop_first()[j - 1]);
                        }
                    }
                },
                None => {
                    if names.contains(name) {
                        let k = choose|k: int| 0 <= k < names.len() && names[k] == name;
                        assert(names.drop_first()[k - 1] == name);
                    }
                },
            }
        }
    }
}

/// The first occurrence in a concatenation: in the first part if there is
/// one, otherwise in the second part, shifted past the first.
proof fn lemma_find_first_append(a: Seq<Seq<char>>, b: Seq<Seq<char>>, name: Seq<char>)
    ensures
        find_first(a + b, name) == match find_first(a, name) {
            Some(k) => Some(k),
            None => match find_first(b, name) {
                Some(k) => Some(k + a.len()),
                None => None,
            },
        },
    decreases a.len(),
{
    if a.len() > 0 {
        assert((a + b).drop_first() =~= a.drop_first() + b);
        lemma_find_first_append(a.drop_first(), b, name);
    } else {
        assert(a + b =~= b);
    }
}

/// The first occurrence is at `i` when `i` holds the name and nothing before
/// it does.
proof fn lemma_find_first_is(names: Seq<Seq<char>>, name: Seq<char>, i: int)
    requires
        0 <= i < names.len(),
        names[i] == name,
        forall|j: int| 0 <= j < i ==> names[j] != name,
    ensures
        find_first(names, name) == Some(i),
{
    lemma_find_first(names, name);
    if let Some(k) = find_first(names, name) {
        if k < i {
        } else if k > i {
        }
    }
}

/// No occurrence when no position holds the name.
proof fn lemma_find_first_none(names: Seq<Seq<char>>, name: Seq<char>)
    requires
        forall|j: int| 0 <= j < names.len() ==> names[j] != name,
    ensures
        find_first(names, name) is None,
{
    lemma_find_first(names, name);
}

} // verus!
