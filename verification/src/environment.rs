//! The evaluator's name-to-value binding store: a single flat scope, mutated
//! only by let-bindings, read by identifier lookups.

use vstd::prelude::*;
use vstd::string::*;

use crate::object::ObjS;
use crate::object::Object;

verus! {

/// A mapping from identifier text to runtime values. Modelled as a
/// mathematical map from character sequences to value shapes; a later
/// binding for a name overrides an earlier one.
pub struct Environment {
    records: Vec<(String, Object)>,
}

/// The map a binding list denotes: bindings applied left to right, so the
/// latest binding for a name wins.
pub open spec fn env_map(s: Seq<(String, Object)>) -> Map<Seq<char>, ObjS>
    decreases s,
{
    if s.len() == 0 {
        Map::empty()
    } else {
        env_map(s.drop_last()).insert(s.last().0@, s.last().1@)
    }
}

impl View for Environment {
    type V = Map<Seq<char>, ObjS>;

    closed spec fn view(&self) -> Map<Seq<char>, ObjS> {
        env_map(self.records@)
    }
}

/// A name is bound in `env_map(s)` exactly when some binding carries it, and
/// then the latest such binding gives its value.
proof fn lemma_env_map_lookup(s: Seq<(String, Object)>, k: Seq<char>)
    ensures
        env_map(s).contains_key(k) <==> exists|j: int| 0 <= j < s.len() && s[j].0@ == k,
        forall|j: int|
            0 <= j < s.len() && s[j].0@ == k && (forall|j2: int|
                j < j2 < s.len() ==> s[j2].0@ != k) ==> env_map(s)[k] == #[trigger] s[j].1@,
    decreases s,
{
    if s.len() > 0 {
        lemma_env_map_lookup(s.drop_last(), k);
        let n = s.len() - 1;
        if s[n].0@ == k {
            assert(env_map(s).contains_key(k));
        } else {
            assert(env_map(s)[k] == env_map(s.drop_last())[k] || !env_map(s).contains_key(k));
            assert forall|j: int| 0 <= j < s.len() && s[j].0@ == k implies 0 <= j < n by {}
        }
        assert(forall|j: int| 0 <= j < n ==> s.drop_last()[j] == #[trigger] s[j]);
    }
}

impl Environment {
    /// A store with no bindings.
    pub fn new() -> (r: Environment)
        ensures
            r@ == Map::<Seq<char>, ObjS>::empty(),
    {
        Environment { records: Vec::new() }
    }

    /// The index of the latest binding for `key`, if the name is bound.
    fn position_of(records: &Vec<(String, Object)>, key: &String) -> (r: Option<usize>)
        ensures
            match r {
                Option::Some(i) => i < records@.len() && records@[i as int].0@ == key@ && (forall|
                    j: int,
                |
                    i < j < records@.len() ==> records@[j].0@ != key@),
                Option::None => forall|j: int| 0 <= j < records@.len() ==> records@[j].0@ != key@,
            },
    {
        let mut i: usize = records.len();
        while i > 0
            invariant
                i <= records@.len(),
                forall|j: int| i <= j < records@.len() ==> records@[j].0@ != key@,
            decreases i,
        {
            i = i - 1;
            if records[i].0.eq(key) {
                return Option::Some(i);
            }
        }
        Option::None
    }

    /// The value bound to `name`, if any; absence is a lookup miss, not an
    /// error.
    pub fn get(&self, name: &str) -> (r: Option<Object>)
        ensures
            match r {
                Option::Some(o) => self@.contains_key(name@) && o@ == self@[name@],
                Option::None => !self@.contains_key(name@),
            },
    {
        let key = String::from_str(name);
        proof {
            lemma_env_map_lookup(self.records@, name@);
        }
        match Self::position_of(&self.records, &key) {
            Option::Some(i) => Option::Some(self.records[i].1.duplicate()),
            Option::None => Option::None,
        }
    }

    /// Binds `name` to `value`, overriding any earlier binding, and returns
    /// the previously bound value, if any.
    pub fn set(&mut self, name: &str, value: Object) -> (prev: Option<Object>)
        ensures
            final(self)@ == old(self)@.insert(name@, value@),
            match prev {
                Option::Some(o) => old(self)@.contains_key(name@) && o@ == old(self)@[name@],
                Option::None => !old(self)@.contains_key(name@),
            },
    {
        let key = String::from_str(name);
        proof {
            lemma_env_map_lookup(self.records@, name@);
        }
        let prev = match Self::position_of(&self.records, &key) {
            Option::Some(i) => Option::Some(self.records[i].1.duplicate()),
            Option::None => Option::None,
        };
        self.records.push((key, value));
        proof {
            assert(self.records@.drop_last() == old(self).records@);
        }
        prev
    }
}

} // verus!
