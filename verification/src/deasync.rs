//! Which async resolver methods can be made sync. A method qualifies when it
//! has no blocking `.await` (one on anything but a call to a sibling resolver
//! method) and every sibling it awaits qualifies too: the greatest set closed
//! under that rule, found by shrinking the candidates until nothing changes.

use vstd::prelude::*;
use crate::text::{same_text, string_views};

verus! {

/// What the await scan found in one async method of a resolver impl.
pub struct AsyncMethod {
    pub name: String,
    /// Whether the body awaits anything but a sibling resolver call.
    pub blocking: bool,
    /// The sibling methods the body awaits.
    pub awaited: Vec<String>,
}

/// The names of the methods.
pub open spec fn method_names(ms: Seq<AsyncMethod>) -> Set<Seq<char>> {
    Set::new(|n: Seq<char>| exists|i: int| 0 <= i < ms.len() && ms[i].name@ == n)
}

/// Whether some method named `n` awaits something blocking.
pub open spec fn blocks(ms: Seq<AsyncMethod>, n: Seq<char>) -> bool {
    exists|i: int| 0 <= i < ms.len() && ms[i].name@ == n && ms[i].blocking
}

/// Whether `i` is the last method named as it is (the one whose awaits count
/// for the name, as a later method of the same name replaces an earlier one).
pub open spec fn is_last_of_name(ms: Seq<AsyncMethod>, i: int) -> bool {
    &&& 0 <= i < ms.len()
    &&& forall|j: int| i < j < ms.len() ==> ms[j].name@ != ms[i].name@
}

/// Whether the method named `n` awaits the sibling `t`.
pub open spec fn awaits(ms: Seq<AsyncMethod>, n: Seq<char>, t: Seq<char>) -> bool {
    exists|i: int| #[trigger] is_last_of_name(ms, i) && ms[i].name@ == n && string_views(ms[i].awaited@).contains(t)
}

/// A set of method names that can all be made sync at once: each is a method,
/// none blocks, and everything each awaits is in the set.
pub open spec fn closed_under_awaits(ms: Seq<AsyncMethod>, s: Set<Seq<char>>) -> bool {
    forall|n: Seq<char>| #[trigger] s.contains(n) ==> {
        &&& method_names(ms).contains(n)
        &&& !blocks(ms, n)
        &&& forall|t: Seq<char>| awaits(ms, n, t) ==> s.contains(t)
    }
}

/// The number of `true` entries.
pub open spec fn count_true(s: Seq<bool>) -> nat
    decreases s.len(),
{
    if s.len() == 0 {
        0
    } else {
        count_true(s.drop_last()) + if s.last() { 1nat } else { 0nat }
    }
}

proof fn lemma_count_true_update(s: Seq<bool>, i: int)
    requires
        0 <= i < s.len(),
        s[i],
    ensures
        count_true(s.update(i, false)) + 1 == count_true(s),
    decreases s.len(),
{
    if i == s.len() - 1 {
        assert(s.update(i, false).drop_last() =~= s.drop_last());
    } else {
        assert(s.update(i, false).drop_last() =~= s.drop_last().update(i, false));
        lemma_count_true_update(s.drop_last(), i);
    }
}

/// The names of the methods marked alive.
pub open spec fn alive_names(ms: Seq<AsyncMethod>, alive: Seq<bool>) -> Set<Seq<char>> {
    Set::new(|n: Seq<char>| exists|i: int| 0 <= i < ms.len() && alive[i] && ms[i].name@ == n)
}

/// Whether the position of the last method named `n` is `i`.
fn last_of_name(ms: &Vec<AsyncMethod>, i: usize) -> (r: bool)
    requires
        i < ms@.len(),
    ensures
        r == is_last_of_name(ms@, i as int),
{
    let n: usize = ms.len();
    let mut j: usize = i + 1;
    while j < n
        invariant
            n == ms@.len(),
            i < j <= ms@.len(),
            forall|k: int| i < k < j ==> ms@[k].name@ != ms@[i as int].name@,
        decreases ms.len() - j,
    {
        if same_text(ms[j].name.as_str(), ms[i].name.as_str()) {
            return false;
        }
        j += 1;
    }
    true
}

/// Whether some method named as `ms[i]` is blocking.
fn name_blocks(ms: &Vec<AsyncMethod>, i: usize) -> (r: bool)
    requires
        i < ms@.len(),
    ensures
        r == blocks(ms@, ms@[i as int].name@),
{
    let mut j: usize = 0;
    while j < ms.len()
        invariant
            i < ms@.len(),
            j <= ms@.len(),
            forall|k: int| 0 <= k < j ==> !(ms@[k].name@ == ms@[i as int].name@ && ms@[k].blocking),
        decreases ms.len() - j,
    {
        if ms[j].blocking && same_text(ms[j].name.as_str(), ms[i].name.as_str()) {
            return true;
        }
        j += 1;
    }
    false
}

/// Whether some method marked alive is named `t`.
fn is_alive_name(ms: &Vec<AsyncMethod>, alive: &Vec<bool>, t: &str) -> (r: bool)
    requires
        alive@.len() == ms@.len(),
    ensures
        r == alive_names(ms@, alive@).contains(t@),
{
    let mut j: usize = 0;
    while j < ms.len()
        invariant
            j <= ms@.len(),
            alive@.len() == ms@.len(),
            forall|k: int| 0 <= k < j ==> !(alive@[k] && ms@[k].name@ == t@),
        decreases ms.len() - j,
    {
        if alive[j] && same_text(ms[j].name.as_str(), t) {
            return true;
        }
        j += 1;
    }
    false
}

/// The resolver methods that can be made sync: the greatest set of method
/// names in which no method blocks and every awaited sibling is itself in the
/// set.
pub fn deasyncable(ms: &Vec<AsyncMethod>) -> (out: Vec<String>)
    ensures
        closed_under_awaits(ms@, string_views(out@).to_set()),
        forall|s: Set<Seq<char>>| #[trigger] closed_under_awaits(ms@, s) ==> s.subset_of(string_views(out@).to_set()),
{
    let n: usize = ms.len();
    let mut alive: Vec<bool> = Vec::new();
    let mut i: usize = 0;
    while i < n
        invariant
            n == ms@.len(),
            i <= n,
            alive@.len() == i,
            forall|k: int| 0 <= k < i ==> #[trigger] alive@[k] == (is_last_of_name(ms@, k) && !blocks(ms@, ms@[k].name@)),
        decreases n - i,
    {
        let keep = last_of_name(ms, i) && !name_blocks(ms, i);
        alive.push(keep);
        i += 1;
    }
    proof {
        assert forall|s: Set<Seq<char>>| #[trigger] closed_under_awaits(ms@, s) implies s.subset_of(alive_names(ms@, alive@)) by {
            assert forall|x: Seq<char>| s.contains(x) implies alive_names(ms@, alive@).contains(x) by {
                assert(method_names(ms@).contains(x));
                let i0 = choose|i: int| 0 <= i < ms@.len() && ms@[i].name@ == x;
                let last = lemma_last_occurrence(ms@, i0);
                assert(alive@[last]);
            }
        }
    }
    loop
        invariant
            n == ms@.len(),
            alive@.len() == n,
            forall|k: int| 0 <= k < n && #[trigger] alive@[k] ==> is_last_of_name(ms@, k) && !blocks(ms@, ms@[k].name@),
            forall|s: Set<Seq<char>>| #[trigger] closed_under_awaits(ms@, s) ==> s.subset_of(alive_names(ms@, alive@)),
        decreases count_true(alive@),
    {
        let snapshot = alive.clone();
        let mut changed = false;
        let mut k: usize = 0;
        while k < n
            invariant
                n == ms@.len(),
                alive@.len() == n,
                snapshot@.len() == n,
                k <= n,
                forall|j: int| 0 <= j < n && #[trigger] alive@[j] ==> snapshot@[j],
                forall|j: int| 0 <= j < n && #[trigger] alive@[j] ==> is_last_of_name(ms@, j) && !blocks(ms@, ms@[j].name@),
                forall|s: Set<Seq<char>>| #[trigger] closed_under_awaits(ms@, s) ==> s.subset_of(alive_names(ms@, alive@)),
                forall|s: Set<Seq<char>>| #[trigger] closed_under_awaits(ms@, s) ==> s.subset_of(alive_names(ms@, snapshot@)),
                changed ==> count_true(alive@) < count_true(snapshot@),
                !changed ==> alive@ == snapshot@,
                forall|j: int| 0 <= j < k && #[trigger] alive@[j] ==> forall|t: int| 0 <= t < ms@[j].awaited@.len()
                    ==> alive_names(ms@, snapshot@).contains(#[trigger] ms@[j].awaited@[t]@),
            decreases n - k,
        {
            if alive[k] {
                let mut all_alive = true;
                let mut t: usize = 0;
                while t < ms[k].awaited.len()
                    invariant
                        n == ms@.len(),
                        k < n,
                        snapshot@.len() == n,
                        t <= ms@[k as int].awaited@.len(),
                        all_alive ==> forall|u: int| 0 <= u < t ==> alive_names(ms@, snapshot@).contains(#[trigger] ms@[k as int].awaited@[u]@),
                        !all_alive ==> exists|u: int| 0 <= u < t && !alive_names(ms@, snapshot@).contains(#[trigger] ms@[k as int].awaited@[u]@),
                    decreases ms@[k as int].awaited@.len() - t,
                {
                    if !is_alive_name(ms, &snapshot, ms[k].awaited[t].as_str()) {
                        all_alive = false;
                    }
                    t += 1;
                }
                if !all_alive {
                    let ghost before = alive@;
                    proof {
                        lemma_count_true_update(before, k as int);
                        let u = choose|u: int| 0 <= u < ms@[k as int].awaited@.len() && !alive_names(ms@, snapshot@).contains(#[trigger] ms@[k as int].awaited@[u]@);
                        let target = ms@[k as int].awaited@[u]@;
                        assert(string_views(ms@[k as int].awaited@)[u] == target);
                        assert(awaits(ms@, ms@[k as int].name@, target));
                        assert forall|s: Set<Seq<char>>| #[trigger] closed_under_awaits(ms@, s) implies s.subset_of(alive_names(ms@, before.update(k as int, false))) by {
                            assert forall|x: Seq<char>| s.contains(x) implies alive_names(ms@, before.update(k as int, false)).contains(x) by {
                                assert(alive_names(ms@, before).contains(x));
                                let i1 = choose|i: int| 0 <= i < ms@.len() && before[i] && ms@[i].name@ == x;
                                if i1 == k {
                                    assert(s.contains(target));
                                    assert(s.subset_of(alive_names(ms@, snapshot@)));
                                    assert(false);
                                }
                                assert(before.update(k as int, false)[i1]);
                            }
                        }
                    }
                    alive.set(k, false);
                    changed = true;
                }
            }
            k += 1;
        }
        if !changed {
            proof {
                let out_names = alive_names(ms@, alive@);
                assert forall|x: Seq<char>| #[trigger] out_names.contains(x) implies {
                    &&& method_names(ms@).contains(x)
                    &&& !blocks(ms@, x)
                    &&& forall|t: Seq<char>| awaits(ms@, x, t) ==> out_names.contains(t)
                } by {
                    let i1 = choose|i: int| 0 <= i < ms@.len() && alive@[i] && ms@[i].name@ == x;
                    assert(method_names(ms@).contains(x));
                    assert forall|t: Seq<char>| awaits(ms@, x, t) implies out_names.contains(t) by {
                        let i2 = choose|i: int| #[trigger] is_last_of_name(ms@, i) && ms@[i].name@ == x && string_views(ms@[i].awaited@).contains(t);
                        if i2 != i1 {
                            if i2 < i1 {
                                assert(ms@[i1].name@ != ms@[i2].name@);
                            } else {
                                assert(ms@[i2].name@ != ms@[i1].name@);
                            }
                        }
                        let u = choose|u: int| 0 <= u < string_views(ms@[i2].awaited@).len() && #[trigger] string_views(ms@[i2].awaited@)[u] == t;
                        assert(ms@[i1].awaited@[u]@ == t);
                    }
                }
            }
            let mut out: Vec<String> = Vec::new();
            let mut j: usize = 0;
            while j < n
                invariant
                    n == ms@.len(),
                    alive@.len() == n,
                    j <= n,
                    forall|x: Seq<char>| string_views(out@).to_set().contains(x)
                        <==> exists|i: int| 0 <= i < j && alive@[i] && ms@[i].name@ == x,
                decreases n - j,
            {
                if alive[j] {
                    let ghost before = out@;
                    out.push(ms[j].name.clone());
                    proof {
                        assert(string_views(out@) =~= string_views(before).push(ms@[j as int].name@));
                        assert forall|x: Seq<char>| string_views(out@).to_set().contains(x)
                            <==> exists|i: int| 0 <= i < j + 1 && alive@[i] && ms@[i].name@ == x by {
                            if string_views(out@).to_set().contains(x) {
                                if x != ms@[j as int].name@ {
                                    assert(string_views(before).to_set().contains(x)) by {
                                        let q = choose|q: int| 0 <= q < string_views(out@).len() && string_views(out@)[q] == x;
                                        assert(string_views(before)[q] == x);
                                    }
                                }
                            }
                            if exists|i: int| 0 <= i < j + 1 && alive@[i] && ms@[i].name@ == x {
                                let i = choose|i: int| 0 <= i < j + 1 && alive@[i] && ms@[i].name@ == x;
                                if i == j {
                                    assert(string_views(out@)[before.len() as int] == x);
                                } else {
                                    assert(string_views(before).to_set().contains(x));
                                    let q = choose|q: int| 0 <= q < string_views(before).len() && string_views(before)[q] == x;
                                    assert(string_views(out@)[q] == x);
                                }
                            }
                        }
                    }
                } else {
                    proof {
                        assert forall|x: Seq<char>| string_views(out@).to_set().contains(x)
                            <==> exists|i: int| 0 <= i < j + 1 && alive@[i] && ms@[i].name@ == x by {
                            if exists|i: int| 0 <= i < j + 1 && alive@[i] && ms@[i].name@ == x {
                                let i = choose|i: int| 0 <= i < j + 1 && alive@[i] && ms@[i].name@ == x;
                                assert(i != j);
                            }
                        }
                    }
                }
                j += 1;
            }
            proof {
                assert(string_views(out@).to_set() =~= alive_names(ms@, alive@));
            }
            return out;
        }
    }
}

/// Every method name has a last occurrence.
proof fn lemma_last_occurrence(ms: Seq<AsyncMethod>, i: int) -> (last: int)
    requires
        0 <= i < ms.len(),
    ensures
        is_last_of_name(ms, last),
        ms[last].name@ == ms[i].name@,
    decreases ms.len() - i,
{
    if exists|j: int| i < j < ms.len() && ms[j].name@ == ms[i].name@ {
        let j = choose|j: int| i < j < ms.len() && ms[j].name@ == ms[i].name@;
        lemma_last_occurrence(ms, j)
    } else {
        i
    }
}

/// What an `.await` awaits, as far as the de-async scan reads it.
pub enum AwaitBase {
    /// A method call whose receiver is a path: the receiver path's last
    /// segment, and the method's name.
    MethodOnPath { receiver_last: Option<String>, method: String },
    /// Anything else: a real future.
    Other,
}

/// The sibling method a `.await` waits on: the method of a `self.m(..)` or
/// `<SelfType>.m(..)` call. The receiver must be `self` or the impl's own
/// type, so a same-named method on an unrelated value never matches.
pub open spec fn self_call_spec(base: AwaitBase, self_ty: Option<Seq<char>>) -> Option<Seq<char>> {
    match base {
        AwaitBase::MethodOnPath { receiver_last, method } => match receiver_last {
            Some(r) => if r@ == "self"@ || self_ty == Some(r@) {
                Some(method@)
            } else {
                None
            },
            None => None,
        },
        AwaitBase::Other => None,
    }
}

/// The sibling method a `.await` waits on, if it is a call on `self` or on
/// the impl's own type.
pub fn self_call_method(base: &AwaitBase, self_ty: Option<&str>) -> (r: Option<String>)
    ensures
        match r {
            Some(m) => self_call_spec(*base, match self_ty { Some(t) => Some(t@), None => None }) == Some(m@),
            None => self_call_spec(*base, match self_ty { Some(t) => Some(t@), None => None }) is None,
        },
{
    match base {
        AwaitBase::MethodOnPath { receiver_last, method } => match receiver_last {
            Some(r) => {
                let own = match self_ty {
                    Some(t) => same_text(r.as_str(), t),
                    None => false,
                };
                if same_text(r.as_str(), "self") || own {
                    Some(method.clone())
                } else {
                    None
                }
            },
            None => None,
        },
        AwaitBase::Other => None,
    }
}

/// Whether `name` is among `names`.
fn among(names: &Vec<String>, name: &str) -> (r: bool)
    ensures
        r == string_views(names@).contains(name@),
{
    let mut i: usize = 0;
    while i < names.len()
        invariant
            i <= names@.len(),
            forall|k: int| 0 <= k < i ==> names@[k]@ != name@,
        decreases names.len() - i,
    {
        if same_text(names[i].as_str(), name) {
            assert(string_views(names@)[i as int] == name@);
            return true;
        }
        i += 1;
    }
    false
}

/// Classifies one `.await` of an async resolver method: the sibling it
/// awaits when it is a call on `self` (or the impl's type) to one of the
/// impl's async methods; `None` when it is blocking (a real future).
pub fn classify_await(base: &AwaitBase, self_ty: Option<&str>, siblings: &Vec<String>) -> (r: Option<String>)
    ensures
        match self_call_spec(*base, match self_ty { Some(t) => Some(t@), None => None }) {
            Some(m) => if string_views(siblings@).contains(m) {
                r matches Some(n) && n@ == m
            } else {
                r is None
            },
            None => r is None,
        },
{
    match self_call_method(base, self_ty) {
        Some(m) => if among(siblings, m.as_str()) {
            Some(m)
        } else {
            None
        },
        None => None,
    }
}

/// Whether an `.await` is dropped once its sibling is made sync: it awaits a
/// call on `self` (or the impl's type) to a method that was made sync.
pub fn strips_await(base: &AwaitBase, self_ty: Option<&str>, deasynced: &Vec<String>) -> (r: bool)
    ensures
        r == (self_call_spec(*base, match self_ty { Some(t) => Some(t@), None => None }) matches Some(m)
            && string_views(deasynced@).contains(m)),
{
    match self_call_method(base, self_ty) {
        Some(m) => among(deasynced, m.as_str()),
        None => false,
    }
}

} // verus!
