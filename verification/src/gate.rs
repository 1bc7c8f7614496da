//! Rules by client, with a list of all of them that is quick to walk.

use crate::bindings::share;
use std::collections::HashMap;
use std::sync::Arc;
use vstd::prelude::*;

verus! {

broadcast use vstd::std_specs::hash::group_hash_axioms;

/// A rule of a gate. What it lets through is its view.
pub trait Rule: View + Sized {
    /// A rule that lets the same through.
    fn duplicate(&self) -> (r: Self)
        ensures
            r@ == self@,
    ;
}

/// What the rules of a list let through.
pub open spec fn views<R: View>(rules: Seq<R>) -> Seq<R::V> {
    rules.map_values(|r: R| r@)
}

/// The rules of some clients, one client after the other.
pub open spec fn joined<V>(ids: Seq<usize>, clients: Map<usize, Seq<V>>) -> Seq<V> {
    ids.map_values(|id: usize| clients[id]).flatten()
}

/// The list holds the rules of every client, one client after the other, in some order of the
/// clients.
pub open spec fn merges<V>(merged: Seq<V>, clients: Map<usize, Seq<V>>) -> bool {
    exists|ids: Seq<usize>| #[trigger]
        joined(ids, clients) == merged && ids.no_duplicates() && ids.to_set() == clients.dom()
}

/// The rules by client after a client is given rules, in place of those that it had. Without
/// rules it is no client.
pub open spec fn updated<V>(
    clients: Map<usize, Seq<V>>,
    client_id: usize,
    rules: Seq<V>,
) -> Map<usize, Seq<V>> {
    if rules.len() == 0 {
        clients.remove(client_id)
    } else {
        clients.insert(client_id, rules)
    }
}

/// Some client has the rule.
pub open spec fn some_client_has<V>(clients: Map<usize, Seq<V>>, rule: V) -> bool {
    exists|id: usize| #[trigger] clients.contains_key(id) && clients[id].contains(rule)
}

proof fn lemma_joined_step<V>(ids: Seq<usize>, clients: Map<usize, Seq<V>>, i: int)
    requires
        0 <= i < ids.len(),
    ensures
        joined(ids.take(i + 1), clients) == joined(ids.take(i), clients) + clients[ids[i]],
{
    let rows = ids.take(i).map_values(|id: usize| clients[id]);
    assert(ids.take(i + 1).map_values(|id: usize| clients[id]) =~= rows.push(clients[ids[i]]));
    rows.lemma_flatten_push(clients[ids[i]]);
}

proof fn lemma_joined<V>(ids: Seq<usize>, clients: Map<usize, Seq<V>>, rule: V)
    ensures
        joined(ids, clients).contains(rule) <==> exists|i: int|
            0 <= i < ids.len() && clients[#[trigger] ids[i]].contains(rule),
    decreases ids.len(),
{
    if ids.len() == 0 {
        assert(ids.map_values(|id: usize| clients[id]) =~= Seq::empty());
        assert(joined(ids, clients) =~= Seq::empty());
    } else {
        let n = ids.len() - 1;
        let rest = ids.take(n);
        lemma_joined(rest, clients, rule);
        lemma_joined_step(ids, clients, n);
        assert(ids.take(n + 1) =~= ids);
        let some = joined(rest, clients);
        let more = clients[ids[n]];
        let all = joined(ids, clients);
        assert(all == some + more);
        if all.contains(rule) {
            let k = choose|k: int| 0 <= k < all.len() && all[k] == rule;
            if k < some.len() {
                assert(some[k] == rule);
                let i = choose|i: int|
                    0 <= i < rest.len() && clients[#[trigger] rest[i]].contains(rule);
                assert(clients[ids[i]].contains(rule));
            } else {
                assert(more[k - some.len()] == rule);
                assert(clients[ids[n]].contains(rule));
            }
        }
        if exists|i: int| 0 <= i < ids.len() && clients[#[trigger] ids[i]].contains(rule) {
            let i = choose|i: int| 0 <= i < ids.len() && clients[#[trigger] ids[i]].contains(rule);
            if i < n {
                assert(clients[rest[i]].contains(rule));
                let k = choose|k: int| 0 <= k < some.len() && some[k] == rule;
                assert(all[k] == rule);
            } else {
                let k = choose|k: int| 0 <= k < more.len() && more[k] == rule;
                assert(all[some.len() + k] == rule);
            }
        }
    }
}

/// A rule is in the list where some client has it, and nowhere else.
pub proof fn lemma_merged_rules<V>(merged: Seq<V>, clients: Map<usize, Seq<V>>, rule: V)
    requires
        merges(merged, clients),
    ensures
        merged.contains(rule) <==> some_client_has(clients, rule),
{
    let ids = choose|ids: Seq<usize>| #[trigger]
        joined(ids, clients) == merged && ids.no_duplicates() && ids.to_set() == clients.dom();
    lemma_joined(ids, clients, rule);
    if merged.contains(rule) {
        let i = choose|i: int| 0 <= i < ids.len() && clients[#[trigger] ids[i]].contains(rule);
        assert(ids.to_set().contains(ids[i]));
        assert(clients.contains_key(ids[i]));
    }
    if some_client_has(clients, rule) {
        let id = choose|id: usize| #[trigger]
            clients.contains_key(id) && clients[id].contains(rule);
        assert(ids.to_set().contains(id));
        let i = choose|i: int| 0 <= i < ids.len() && ids[i] == id;
        assert(clients[ids[i]].contains(rule));
    }
}

proof fn lemma_joined_without<V>(ids: Seq<usize>, clients: Map<usize, Seq<V>>, j: int)
    requires
        0 <= j < ids.len(),
    ensures
        joined(ids, clients).len() == joined(ids.remove(j), clients).len() + clients[ids[j]].len(),
    decreases ids.len(),
{
    let n = ids.len() - 1;
    let less = ids.remove(j);
    lemma_joined_step(ids, clients, n);
    assert(ids.take(n + 1) =~= ids);
    if j == n {
        assert(less =~= ids.take(n));
    } else {
        lemma_joined_without(ids.take(n), clients, j);
        lemma_joined_step(less, clients, n - 1);
        assert(less.take(n) =~= less);
        assert(less.take(n - 1) =~= ids.take(n).remove(j));
    }
}

proof fn lemma_joined_len<V>(ids: Seq<usize>, others: Seq<usize>, clients: Map<usize, Seq<V>>)
    requires
        ids.no_duplicates(),
        others.no_duplicates(),
        ids.to_set() == others.to_set(),
    ensures
        joined(ids, clients).len() == joined(others, clients).len(),
    decreases ids.len(),
{
    if ids.len() == 0 {
        if others.len() > 0 {
            assert(others.to_set().contains(others[0]));
            assert(ids.to_set().contains(others[0]));
        }
        assert(ids =~= others);
    } else {
        let n = ids.len() - 1;
        let rest = ids.take(n);
        assert(ids.to_set().contains(ids[n]));
        assert(others.to_set().contains(ids[n]));
        let j = choose|j: int| 0 <= j < others.len() && others[j] == ids[n];
        let less = others.remove(j);
        assert forall|id: usize| rest.to_set().contains(id) == less.to_set().contains(id) by {
            if rest.contains(id) {
                let i = choose|i: int| 0 <= i < rest.len() && rest[i] == id;
                assert(ids[i] == id);
                assert(ids.to_set().contains(id));
                assert(others.to_set().contains(id));
                let k = choose|k: int| 0 <= k < others.len() && others[k] == id;
                if k < j {
                    assert(less[k] == id);
                } else {
                    assert(less[k - 1] == id);
                }
            }
            if less.contains(id) {
                let k = choose|k: int| 0 <= k < less.len() && less[k] == id;
                assert(others[if k < j {
                    k
                } else {
                    k + 1
                }] == id);
                assert(others.to_set().contains(id));
                assert(ids.to_set().contains(id));
                let i = choose|i: int| 0 <= i < ids.len() && ids[i] == id;
                assert(rest[i] == id);
            }
        }
        assert(rest.to_set() =~= less.to_set());
        lemma_joined_len(rest, less, clients);
        lemma_joined_without(others, clients, j);
        lemma_joined_step(ids, clients, n);
        assert(ids.take(n + 1) =~= ids);
    }
}

/// In whatever order the clients come, the list of all rules has the same length.
pub proof fn lemma_merged_len<V>(
    merged: Seq<V>,
    other: Seq<V>,
    clients: Map<usize, Seq<V>>,
)
    requires
        merges(merged, clients),
        merges(other, clients),
    ensures
        merged.len() == other.len(),
{
    let ids = choose|ids: Seq<usize>| #[trigger]
        joined(ids, clients) == merged && ids.no_duplicates() && ids.to_set() == clients.dom();
    let others = choose|ids: Seq<usize>| #[trigger]
        joined(ids, clients) == other && ids.no_duplicates() && ids.to_set() == clients.dom();
    lemma_joined_len(ids, others, clients);
}

/// The list of all rules has none where there are no clients, and without a client it is shorter
/// by as many rules as that client has.
pub proof fn lemma_merged_rules_add_up<V>(
    merged: Seq<V>,
    clients: Map<usize, Seq<V>>,
    client_id: usize,
    rest: Seq<V>,
)
    requires
        merges(merged, clients),
        merges(rest, clients.remove(client_id)),
    ensures
        clients.contains_key(client_id) ==> merged.len() == rest.len() + clients[client_id].len(),
        clients.dom() == Set::<usize>::empty() ==> merged.len() == 0,
{
    let ids = choose|ids: Seq<usize>| #[trigger]
        joined(ids, clients) == merged && ids.no_duplicates() && ids.to_set() == clients.dom();
    let fewer = clients.remove(client_id);
    if clients.contains_key(client_id) {
        assert(ids.to_set().contains(client_id));
        let j = choose|j: int| 0 <= j < ids.len() && ids[j] == client_id;
        let less = ids.remove(j);
        lemma_joined_without(ids, clients, j);
        assert(less.map_values(|id: usize| clients[id]) =~= less.map_values(
            |id: usize| fewer[id],
        )) by {
            assert forall|k: int| 0 <= k < less.len() implies clients[#[trigger] less[k]]
                == fewer[less[k]] by {
                assert(less[k] != client_id);
            }
        }
        assert(joined(less, clients) == joined(less, fewer));
        assert forall|id: usize| less.to_set().contains(id) == fewer.dom().contains(id) by {
            if less.contains(id) {
                let k = choose|k: int| 0 <= k < less.len() && less[k] == id;
                let n = if k < j {
                    k
                } else {
                    k + 1
                };
                assert(ids[n] == id);
                assert(ids.to_set().contains(id));
            }
            if fewer.dom().contains(id) {
                assert(ids.to_set().contains(id));
                let n = choose|n: int| 0 <= n < ids.len() && ids[n] == id;
                if n < j {
                    assert(less[n] == id);
                } else {
                    assert(less[n - 1] == id);
                }
            }
        }
        assert(less.to_set() =~= fewer.dom());
        assert(merges(joined(less, fewer), fewer));
        lemma_merged_len(rest, joined(less, fewer), fewer);
    }
    if clients.dom() == Set::<usize>::empty() {
        if ids.len() > 0 {
            assert(ids.to_set().contains(ids[0]));
        }
        assert(ids.map_values(|id: usize| clients[id]) =~= Seq::empty());
    }
}

/// The list of all rules of one client alone is that of its rules.
pub proof fn lemma_merged_rules_of_one_client<V>(merged: Seq<V>, client_id: usize, rules: Seq<V>)
    requires
        merges(merged, Map::<usize, Seq<V>>::empty().insert(client_id, rules)),
    ensures
        merged == rules,
{
    let clients = Map::<usize, Seq<V>>::empty().insert(client_id, rules);
    let ids = choose|ids: Seq<usize>| #[trigger]
        joined(ids, clients) == merged && ids.no_duplicates() && ids.to_set() == clients.dom();
    assert(clients.dom().contains(client_id));
    assert(ids.to_set().contains(client_id));
    assert forall|k: int| 0 <= k < ids.len() implies ids[k] == client_id by {
        assert(ids.to_set().contains(ids[k]));
    }
    if ids.len() > 1 {
        assert(ids[0] == ids[1]);
    }
    assert(ids.len() == 1);
    lemma_joined_step(ids, clients, 0);
    assert(ids.take(0).map_values(|id: usize| clients[id]) =~= Seq::empty());
    assert(ids.take(1) =~= ids);
    assert(joined(ids.take(0), clients) =~= Seq::empty());
    assert(merged =~= rules);
}

/// A number, where it is no larger than a length can be.
spec fn as_len(n: nat) -> Option<usize> {
    if n <= usize::MAX {
        Some(n as usize)
    } else {
        None
    }
}

/// The rules of every client that has any.
#[derive(Debug)]
pub struct ClientRules<R: Rule> {
    clients: HashMap<usize, Vec<R>>,
    merged: Arc<Vec<R>>,
}

/// What the rules of every client let through.
spec fn by_client<R: Rule>(clients: Map<usize, Vec<R>>) -> Map<usize, Seq<R::V>> {
    clients.map_values(|rules: Vec<R>| views(rules@))
}

impl<R: Rule> View for ClientRules<R> {
    type V = Map<usize, Seq<R::V>>;

    closed spec fn view(&self) -> Map<usize, Seq<R::V>> {
        by_client(self.clients@)
    }
}

impl<R: Rule> ClientRules<R> {
    #[verifier::type_invariant]
    spec fn inv(&self) -> bool {
        &&& merges(views(self.merged@), by_client(self.clients@))
        &&& forall|id: usize| #[trigger]
            self.clients@.contains_key(id) ==> self.clients@[id]@.len() > 0
    }

    pub fn new() -> (r: Self)
        ensures
            r@ == Map::<usize, Seq<R::V>>::empty(),
    {
        let clients: HashMap<usize, Vec<R>> = HashMap::new();
        let merged: Vec<R> = Vec::new();
        proof {
            let none: Seq<usize> = Seq::empty();
            let rules = by_client(clients@);
            assert(none.map_values(|id: usize| rules[id]) =~= Seq::empty());
            assert(joined(none, rules) =~= views(merged@));
            assert(none.to_set() =~= rules.dom());
        }
        let r = ClientRules { clients, merged: Arc::new(merged) };
        assert(r@ =~= Map::empty());
        r
    }

    /// How many rules the clients have together, where that is no more than a length can be.
    fn total_rules(clients: &HashMap<usize, Vec<R>>) -> (r: Option<usize>)
        ensures
            forall|merged: Seq<R::V>| #[trigger]
                merges(merged, by_client(clients@)) ==> r == as_len(merged.len()),
    {
        let mut total: Option<usize> = Some(0);
        let ghost rules = by_client(clients@);
        let keys = clients.keys();
        let ghost ids = vstd::std_specs::hash::into_iter_keys(keys);
        proof {
            assert(ids.take(0).map_values(|id: usize| rules[id]) =~= Seq::empty());
            assert(joined(ids.take(0), rules) =~= Seq::empty());
        }
        for id in it: keys
            invariant
                rules == by_client(clients@),
                it.seq().unref() == ids,
                ids.to_set() == clients@.dom(),
                total == as_len(joined(ids.take(it.index()), rules).len()),
        {
            proof {
                lemma_joined_step(ids, rules, it.index());
                assert(ids.to_set().contains(ids[it.index()]));
                assert(it.seq()[it.index()] == id);
                assert(ids[it.index()] == *id);
            }
            if let Some(own) = clients.get(id) {
                total = match total {
                    Some(n) => n.checked_add(own.len()),
                    None => None,
                };
            }
        }
        proof {
            assert(ids.take(ids.len() as int) =~= ids);
            assert(ids.to_set() =~= rules.dom());
            assert(merges(joined(ids, rules), rules));
            assert forall|merged: Seq<R::V>| #[trigger] merges(merged, rules) implies total
                == as_len(merged.len()) by {
                lemma_merged_len(merged, joined(ids, rules), rules);
            }
        }
        total
    }

    /// The rules of all clients in one list, which is made large enough for them at once.
    fn build_merged(clients: &HashMap<usize, Vec<R>>) -> (r: Vec<R>)
        ensures
            merges(views(r@), by_client(clients@)),
    {
        let mut merged: Vec<R> = match Self::total_rules(clients) {
            Some(total) => Vec::with_capacity(total),
            None => Vec::new(),
        };
        let ghost rules = by_client(clients@);
        let keys = clients.keys();
        let ghost ids = vstd::std_specs::hash::into_iter_keys(keys);
        proof {
            assert(views(merged@) =~= Seq::empty());
            assert(ids.take(0).map_values(|id: usize| rules[id]) =~= Seq::empty());
            assert(joined(ids.take(0), rules) =~= Seq::empty());
        }
        for id in it: keys
            invariant
                rules == by_client(clients@),
                it.seq().unref() == ids,
                ids.to_set() == clients@.dom(),
                views(merged@) == joined(ids.take(it.index()), rules),
        {
            proof {
                lemma_joined_step(ids, rules, it.index());
                assert(ids.to_set().contains(ids[it.index()]));
                assert(it.seq()[it.index()] == id);
                assert(ids[it.index()] == *id);
            }
            if let Some(own) = clients.get(id) {
                Self::append(&mut merged, own.as_slice());
            }
        }
        proof {
            assert(ids.take(ids.len() as int) =~= ids);
            assert(ids.to_set() =~= rules.dom());
            assert(joined(ids, rules) == views(merged@));
        }
        merged
    }

    /// Appends rules that let the same through.
    fn append(merged: &mut Vec<R>, rules: &[R])
        ensures
            views(final(merged)@) == views(old(merged)@) + views(rules@),
    {
        let mut i: usize = 0;
        assert(views(merged@) =~= views(old(merged)@) + views(rules@).take(0));
        while i < rules.len()
            invariant
                i <= rules@.len(),
                views(merged@) == views(old(merged)@) + views(rules@).take(i as int),
            decreases rules@.len() - i,
        {
            let ghost before = merged@;
            merged.push(rules[i].duplicate());
            assert(views(merged@) =~= views(before).push(views(rules@)[i as int]));
            assert(views(rules@).take(i + 1) =~= views(rules@).take(i as int).push(
                views(rules@)[i as int],
            ));
            i += 1;
        }
        assert(views(rules@).take(i as int) =~= views(rules@));
    }

    /// Gives a client its rules, in place of those that it had. Without rules it is no client.
    pub fn update_client_rules(&mut self, client_id: usize, rules: Vec<R>)
        ensures
            final(self)@ == updated(old(self)@, client_id, views(rules@)),
    {
        let mut before = ClientRules::new();
        std::mem::swap(self, &mut before);
        proof {
            use_type_invariant(&before);
        }
        let ClientRules { mut clients, merged: _ } = before;
        let ghost given = views(rules@);
        if rules.is_empty() {
            clients.remove(&client_id);
        } else {
            clients.insert(client_id, rules);
        }
        let merged = Self::build_merged(&clients);
        *self = ClientRules { clients, merged: Arc::new(merged) };
        assert(self@ =~= updated(old(self)@, client_id, given));
    }

    pub fn remove_client(&mut self, client_id: usize)
        ensures
            final(self)@ == old(self)@.remove(client_id),
    {
        let mut before = ClientRules::new();
        std::mem::swap(self, &mut before);
        proof {
            use_type_invariant(&before);
        }
        let ClientRules { mut clients, merged } = before;
        let ghost had = clients@;
        if clients.remove(&client_id).is_some() {
            let merged = Self::build_merged(&clients);
            *self = ClientRules { clients, merged: Arc::new(merged) };
        } else {
            assert(clients@ =~= had);
            *self = ClientRules { clients, merged };
        }
        assert(self@ =~= old(self)@.remove(client_id));
    }

    /// The rules of all clients.
    pub fn merged_rules(&self) -> (r: Arc<Vec<R>>)
        ensures
            merges(views(r@), self@),
    {
        proof {
            use_type_invariant(self);
        }
        share(&self.merged)
    }

    pub fn as_slice(&self) -> (r: &[R])
        ensures
            merges(views(r@), self@),
    {
        proof {
            use_type_invariant(self);
        }
        self.merged.as_slice()
    }
}

} // verus!
