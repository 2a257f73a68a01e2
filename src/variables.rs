use vstd::prelude::*;
use vstd::string::*;
use crate::ast::{Types, classify, get_type};
use crate::errors::Error;
use crate::text::same_text;

verus! {

/// The map that a sequence of (name, value) pairs stands for; a later pair
/// wins over an earlier one of the same name.
pub open spec fn pairs_map(es: Seq<(Seq<char>, Seq<char>)>) -> Map<Seq<char>, Seq<char>>
    decreases es.len(),
{
    if es.len() == 0 {
        Map::empty()
    } else {
        pairs_map(es.drop_last()).insert(es.last().0, es.last().1)
    }
}

/// No name occurs twice.
pub open spec fn names_unique(es: Seq<(Seq<char>, Seq<char>)>) -> bool {
    forall|i: int, j: int| 0 <= i < j < es.len() ==> es[i].0 != es[j].0
}

proof fn lemma_pairs_map_lookup(es: Seq<(Seq<char>, Seq<char>)>, i: int)
    requires
        names_unique(es),
        0 <= i < es.len(),
    ensures
        pairs_map(es).contains_key(es[i].0),
        pairs_map(es)[es[i].0] == es[i].1,
    decreases es.len(),
{
    if i < es.len() - 1 {
        lemma_pairs_map_lookup(es.drop_last(), i);
    }
}

proof fn lemma_pairs_map_absent(es: Seq<(Seq<char>, Seq<char>)>, k: Seq<char>)
    requires
        forall|i: int| 0 <= i < es.len() ==> es[i].0 != k,
    ensures
        !pairs_map(es).contains_key(k),
    decreases es.len(),
{
    if es.len() > 0 {
        lemma_pairs_map_absent(es.drop_last(), k);
    }
}

proof fn lemma_pairs_map_update(es: Seq<(Seq<char>, Seq<char>)>, i: int, v: Seq<char>)
    requires
        names_unique(es),
        0 <= i < es.len(),
    ensures
        pairs_map(es.update(i, (es[i].0, v))) == pairs_map(es).insert(es[i].0, v),
    decreases es.len(),
{
    let es2 = es.update(i, (es[i].0, v));
    if i == es.len() - 1 {
        assert(es2.drop_last() =~= es.drop_last());
        assert(pairs_map(es2) =~= pairs_map(es).insert(es[i].0, v));
    } else {
        assert(es2.drop_last() =~= es.drop_last().update(i, (es[i].0, v)));
        lemma_pairs_map_update(es.drop_last(), i, v);
        assert(pairs_map(es2) =~= pairs_map(es).insert(es[i].0, v));
    }
}

/// The variable environment: one flat map from names to stored tokens,
/// shared by every block of a running program.
pub struct Variables {
    entries: Vec<(String, String)>,
}

impl Variables {
    pub closed spec fn pairs(&self) -> Seq<(Seq<char>, Seq<char>)> {
        self.entries@.map_values(|e: (String, String)| (e.0@, e.1@))
    }

    /// No name is stored twice.
    pub closed spec fn wf(&self) -> bool {
        names_unique(self.pairs())
    }

    /// The empty environment.
    pub fn new() -> (r: Variables)
        ensures
            r.wf(),
            r@ == Map::<Seq<char>, Seq<char>>::empty(),
    {
        let r = Variables { entries: Vec::new() };
        assert(r.pairs() =~= Seq::empty());
        r
    }

    /// The number of variables.
    pub fn len(&self) -> (r: usize)
        requires
            self.wf(),
        ensures
            r == self@.len(),
    {
        proof {
            self.lemma_len();
        }
        self.entries.len()
    }

    proof fn lemma_len(&self)
        requires
            self.wf(),
        ensures
            self@.len() == self.entries@.len(),
            self@.dom().finite(),
    {
        lemma_pairs_map_len(self.pairs());
    }

    /// The stored value of `name`, if there is one.
    pub fn get(&self, name: &str) -> (r: Option<String>)
        requires
            self.wf(),
        ensures
            r is Some <==> self@.contains_key(name@),
            r matches Some(v) ==> v@ == self@[name@],
    {
        let ghost ps = self.pairs();
        let mut i: usize = 0;
        while i < self.entries.len()
            invariant
                ps == self.pairs(),
                names_unique(ps),
                i <= self.entries.len(),
                forall|j: int| 0 <= j < i ==> ps[j].0 != name@,
            decreases self.entries.len() - i,
        {
            if same_text(self.entries[i].0.as_str(), name) {
                proof {
                    lemma_pairs_map_lookup(ps, i as int);
                }
                return Some(self.entries[i].1.clone());
            }
            i = i + 1;
        }
        proof {
            lemma_pairs_map_absent(ps, name@);
        }
        None
    }

    /// Stores `value` under `name`; an earlier value of `name` is replaced.
    pub fn insert(&mut self, name: String, value: String)
        requires
            old(self).wf(),
        ensures
            final(self).wf(),
            final(self)@ == old(self)@.insert(name@, value@),
    {
        let ghost ps = self.pairs();
        let mut i: usize = 0;
        while i < self.entries.len()
            invariant
                ps == self.pairs(),
                ps == old(self).pairs(),
                *self == *old(self),
                names_unique(ps),
                i <= self.entries.len(),
                forall|j: int| 0 <= j < i ==> ps[j].0 != name@,
            decreases self.entries.len() - i,
        {
            if same_text(self.entries[i].0.as_str(), name.as_str()) {
                let key = self.entries[i].0.clone();
                self.entries.set(i, (key, value));
                proof {
                    assert(self.pairs() =~= ps.update(i as int, (ps[i as int].0, value@)));
                    lemma_pairs_map_update(ps, i as int, value@);
                }
                return;
            }
            i = i + 1;
        }
        self.entries.push((name, value));
        assert(self.pairs() =~= ps.push((name@, value@)));
        assert(self.pairs().drop_last() =~= ps);
    }
}

proof fn lemma_pairs_map_len(es: Seq<(Seq<char>, Seq<char>)>)
    requires
        names_unique(es),
    ensures
        pairs_map(es).len() == es.len(),
        pairs_map(es).dom().finite(),
    decreases es.len(),
{
    if es.len() > 0 {
        let init = es.drop_last();
        lemma_pairs_map_len(init);
        lemma_pairs_map_absent(init, es.last().0);
    }
}

impl View for Variables {
    type V = Map<Seq<char>, Seq<char>>;

    closed spec fn view(&self) -> Map<Seq<char>, Seq<char>> {
        pairs_map(self.pairs())
    }
}


/// The message for a variable that does not exist.
pub open spec fn missing_message(name: Seq<char>) -> Seq<char> {
    "Variable `"@ + name + "` does not exist."@
}

/// The message for a chain of variables that comes back to a name it passed.
pub open spec fn cycle_message(name: Seq<char>) -> Seq<char> {
    "Variable `"@ + name + "` refers back to itself."@
}

/// Follows `name` through `vars` until a value that is no identifier is
/// reached, taking at most `fuel` further steps. `Err` holds the message.
pub open spec fn resolve(vars: Map<Seq<char>, Seq<char>>, name: Seq<char>, fuel: nat) -> Result<
    Seq<char>,
    Seq<char>,
>
    decreases fuel,
{
    if !vars.contains_key(name) {
        Err(missing_message(name))
    } else if classify(vars[name]) != Types::Identifier {
        Ok(vars[name])
    } else if fuel == 0 {
        Err(cycle_message(name))
    } else {
        resolve(vars, vars[name], (fuel - 1) as nat)
    }
}

/// What a variable name resolves to. A chain longer than the number of
/// variables must pass some name twice, so it is reported as a cycle.
pub open spec fn resolve_variable(vars: Map<Seq<char>, Seq<char>>, name: Seq<char>) -> Result<
    Seq<char>,
    Seq<char>,
> {
    resolve(vars, name, vars.len())
}

/// Resolves `variable_name` through the environment, following stored
/// identifiers to the value at the end of the chain; that value is returned
/// with its class.
pub fn get_variable(variable_name: &str, variables: &Variables) -> (r: Result<(String, Types), Error>)
    requires
        variables.wf(),
    ensures
        match resolve_variable(variables@, variable_name@) {
            Ok(v) => r matches Ok((value, t)) && value@ == v && t == classify(v),
            Err(m) => r matches Err(Error::RuntimeError(e)) && e@ == m,
        },
{
    match resolve_text(variable_name, variables) {
        Ok(v) => {
            let t = get_type(v.as_str());
            Ok((v, t))
        },
        Err(m) => Err(Error::RuntimeError(m)),
    }
}

/// What `variable_name` resolves to; `Err` holds the message.
pub fn resolve_text(variable_name: &str, variables: &Variables) -> (r: Result<String, String>)
    requires
        variables.wf(),
    ensures
        match resolve_variable(variables@, variable_name@) {
            Ok(v) => r matches Ok(value) && value@ == v,
            Err(m) => r matches Err(e) && e@ == m,
        },
{
    let mut fuel = variables.len();
    let mut name = String::from_str(variable_name);
    loop
        invariant
            variables.wf(),
            resolve_variable(variables@, variable_name@) == resolve(variables@, name@, fuel as nat),
        decreases fuel,
    {
        match variables.get(name.as_str()) {
            None => {
                let mut m = String::from_str("Variable `");
                m.append(name.as_str());
                m.append("` does not exist.");
                return Err(m);
            },
            Some(value) => {
                let t = get_type(value.as_str());
                if t != Types::Identifier {
                    return Ok(value);
                }
                if fuel == 0 {
                    let mut m = String::from_str("Variable `");
                    m.append(name.as_str());
                    m.append("` refers back to itself.");
                    return Err(m);
                }
                fuel = fuel - 1;
                name = value;
            },
        }
    }
}

} // verus!
