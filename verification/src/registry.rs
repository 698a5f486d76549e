//! The table of host functions that scripts may call, and the script prelude
//! that announces them.
use std::collections::HashMap;
use vstd::prelude::*;
use vstd::std_specs::iter::IteratorSpec;
use crate::text::{bool_text, decimal, push_bool, push_char, push_decimal, push_str, replace_all, replace_all_exec};

verus! {

broadcast use vstd::std_specs::hash::group_hash_axioms;

/// Host functions registered so far: id to (name, is_constructor).
pub struct FunctionRegistry {
    functions: HashMap<u32, (String, bool)>,
}

/// What a registered entry means: its name and whether it is a constructor.
pub open spec fn entry_view(e: (String, bool)) -> (Seq<char>, bool) {
    (e.0@, e.1)
}

impl View for FunctionRegistry {
    type V = Map<u32, (Seq<char>, bool)>;

    closed spec fn view(&self) -> Map<u32, (Seq<char>, bool)> {
        self.functions@.map_values(|e: (String, bool)| entry_view(e))
    }
}

/// The placeholder in the raw prelude that the function list replaces.
pub open spec fn prelude_marker() -> Seq<char> {
    "/** will be populated before it runs */"@
}

/// One element of the prelude's function list: `['name', id, is_constructor],`.
pub open spec fn entry_text(id: u32, name: Seq<char>, is_constructor: bool) -> Seq<char> {
    seq!['[', '\''] + name + seq!['\'', ',', ' '] + decimal(id as nat) + seq![',', ' '] + bool_text(
        is_constructor,
    ) + seq![']', ',']
}

/// The function list for the ids in `order`, in that order.
pub open spec fn entries_text(order: Seq<u32>, m: Map<u32, (Seq<char>, bool)>) -> Seq<char>
    decreases order.len(),
{
    if order.len() == 0 {
        Seq::empty()
    } else {
        let id = order.last();
        entries_text(order.drop_last(), m) + entry_text(id, m[id].0, m[id].1)
    }
}

/// `order` lists every id of `m` exactly once.
pub open spec fn lists_each_key_once(order: Seq<u32>, m: Map<u32, (Seq<char>, bool)>) -> bool {
    &&& order.no_duplicates()
    &&& order.len() == m.dom().len()
    &&& forall|i: int| 0 <= i < order.len() ==> m.contains_key(#[trigger] order[i])
    &&& forall|k: u32| m.contains_key(k) ==> #[trigger] order.contains(k)
}

/// The prelude built from `raw` with the functions of `m` listed in `order`.
pub open spec fn prelude_text(
    raw: Seq<char>,
    order: Seq<u32>,
    m: Map<u32, (Seq<char>, bool)>,
) -> Seq<char> {
    replace_all(raw, prelude_marker(), entries_text(order, m))
}

impl FunctionRegistry {
    /// An empty registry.
    pub fn new() -> (r: Self)
        ensures
            r@ == Map::<u32, (Seq<char>, bool)>::empty(),
    {
        let r = FunctionRegistry { functions: HashMap::new() };
        assert(r@ =~= Map::<u32, (Seq<char>, bool)>::empty());
        r
    }

    /// The number of registered functions.
    pub fn len(&self) -> (n: usize)
        ensures
            n == self@.dom().len(),
    {
        assert(self.functions@.dom() =~= self@.dom());
        self.functions.len()
    }

    /// Every registered function as (id, name, is_constructor), each id
    /// once, in the order in which the hash map is walked.
    pub fn entries(&self) -> (r: Vec<(u32, String, bool)>)
        ensures
            r@.len() == self@.dom().len(),
            forall|i: int|
                0 <= i < r@.len() ==> self@.contains_key(#[trigger] r@[i].0) && self@[r@[i].0]
                    == (r@[i].1@, r@[i].2),
            forall|k: u32| #[trigger]
                self@.contains_key(k) ==> exists|i: int| 0 <= i < r@.len() && #[trigger] r@[i].0 == k,
            forall|i: int, j: int|
                0 <= i < r@.len() && 0 <= j < r@.len() && i != j ==> #[trigger] r@[i].0
                    != #[trigger] r@[j].0,
    {
        let mut r: Vec<(u32, String, bool)> = Vec::new();
        let ghost v = self.functions.iter().remaining();
        for pair in it: self.functions.iter()
            invariant
                it.seq() == v,
                r@.len() == it.index(),
                forall|i: int|
                    0 <= i < it.index() ==> #[trigger] r@[i].0 == *v[i].0 && r@[i].1@ == (
                    *v[i].1).0@ && r@[i].2 == (*v[i].1).1,
        {
            let (id, entry) = pair;
            r.push((*id, entry.0.clone(), entry.1));
        }
        proof {
            assert(self@.dom() =~= self.functions@.dom());
            assert(v.len() == self.functions@.dom().len());
            assert forall|i: int|
                0 <= i < r@.len() implies self@.contains_key(#[trigger] r@[i].0) && self@[r@[i].0]
                == (r@[i].1@, r@[i].2) by {
                assert(self.functions@.contains_key(*v[i].0));
                assert(self.functions@[*v[i].0] == *v[i].1);
            }
            assert forall|i: int, j: int|
                0 <= i < r@.len() && 0 <= j < r@.len() && i != j implies #[trigger] r@[i].0
                != #[trigger] r@[j].0 by {
                if r@[i].0 == r@[j].0 {
                    assert(self.functions@[*v[i].0] == *v[i].1);
                    assert(self.functions@[*v[j].0] == *v[j].1);
                    assert(v[i] == v[j]);
                }
            }
            assert forall|k: u32| #[trigger]
                self@.contains_key(k) implies exists|i: int| 0 <= i < r@.len() && #[trigger] r@[i].0
                == k by {
                assert(self.functions@.contains_key(k));
                let kv = (&k, &self.functions@[k]);
                assert(v.contains(kv));
                let i = choose|i: int| 0 <= i < v.len() && v[i] == kv;
                assert(r@[i].0 == k);
            }
        }
        r
    }

    /// The entry registered under `id`, if any.
    pub fn get(&self, id: u32) -> (r: Option<(String, bool)>)
        ensures
            match r {
                Some(e) => self@.contains_key(id) && self@[id] == entry_view(e),
                None => !self@.contains_key(id),
            },
    {
        match self.functions.get(&id) {
            Some(e) => Some((e.0.clone(), e.1)),
            None => None,
        }
    }
}

/// Registers (or re-registers) the host function `id` under `name`.
pub fn real_register_function(
    registry: &mut FunctionRegistry,
    name: String,
    id: u32,
    is_constructor: bool,
)
    ensures
        final(registry)@ == old(registry)@.insert(id, (name@, is_constructor)),
{
    registry.functions.insert(id, (name, is_constructor));
    assert(registry@ =~= old(registry)@.insert(id, (name@, is_constructor)));
}

/// Builds the script prelude: `raw_prelude` with every occurrence of the
/// placeholder replaced by the list of registered functions.
///
/// The list holds each registered function exactly once; the order in which
/// they appear is the order in which the hash map is walked, which nothing
/// fixes.
pub fn build_prelude(registry: &FunctionRegistry, raw_prelude: &str) -> (r: String)
    ensures
        exists|order: Seq<u32>|
            lists_each_key_once(order, registry@) && r@ == prelude_text(
                raw_prelude@,
                order,
                registry@,
            ),
{
    let ghost m = registry@;
    let mut to_insert = String::new();
    let ghost mut order: Seq<u32> = Seq::empty();
    let ghost v = registry.functions.iter().remaining();
    for pair in it: registry.functions.iter()
        invariant
            m == registry@,
            it.seq() == v,
            order.len() == it.index(),
            forall|i: int| 0 <= i < it.index() ==> order[i] == *it.seq()[i].0,
            to_insert@ == entries_text(order, m),
    {
        let (id, entry) = pair;
        proof {
            assert(registry.functions@.contains_key(*id));
            assert(registry.functions@[*id] == *entry);
        }
        let ghost before = to_insert@;
        push_char(&mut to_insert, '[');
        push_char(&mut to_insert, '\'');
        push_str(&mut to_insert, entry.0.as_str());
        push_char(&mut to_insert, '\'');
        push_char(&mut to_insert, ',');
        push_char(&mut to_insert, ' ');
        push_decimal(&mut to_insert, *id);
        push_char(&mut to_insert, ',');
        push_char(&mut to_insert, ' ');
        push_bool(&mut to_insert, entry.1);
        push_char(&mut to_insert, ']');
        push_char(&mut to_insert, ',');
        proof {
            let old_order = order;
            order = order.push(*id);
            assert(order.drop_last() =~= old_order);
            assert(m[*id] == entry_view(*entry));
            assert(to_insert@ =~= before + entry_text(*id, entry.0@, entry.1));
        }
    }
    proof {
        assert(order.len() == v.len());
        assert(m.dom() =~= registry.functions@.dom());
        assert(v.len() == registry.functions@.dom().len());
        assert(order.len() == m.dom().len());
        assert forall|i: int| 0 <= i < order.len() implies m.contains_key(#[trigger] order[i]) by {
            assert(registry.functions@.contains_key(*v[i].0));
        }
        assert(order.no_duplicates()) by {
            assert forall|i: int, j: int|
                0 <= i < order.len() && 0 <= j < order.len() && i != j implies order[i]
                != order[j] by {
                if order[i] == order[j] {
                    assert(registry.functions@[*v[i].0] == *v[i].1);
                    assert(registry.functions@[*v[j].0] == *v[j].1);
                    assert(v[i] == v[j]);
                }
            }
        }
        assert forall|k: u32| m.contains_key(k) implies #[trigger] order.contains(k) by {
            assert(registry.functions@.contains_key(k));
            let kv = (&k, &registry.functions@[k]);
            assert(v.contains(kv));
            let i = choose|i: int| 0 <= i < v.len() && v[i] == kv;
            assert(order[i] == k);
        }
    }
    let marker = "/** will be populated before it runs */";
    proof {
        reveal_strlit("/** will be populated before it runs */");
    }
    let r = replace_all_exec(raw_prelude, marker, to_insert.as_str());
    assert(lists_each_key_once(order, registry@));
    assert(r@ == prelude_text(raw_prelude@, order, registry@));
    r
}

} // verus!
