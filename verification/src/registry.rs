//! The set of loaded ECU definitions, indexed by id.
//!
//! A definition only gets in once it passes every rule, and ids are unique,
//! so whatever is looked up here is safe to put on the bus. Definitions are
//! kept in id order.

use vstd::prelude::*;
use crate::schema::EcuDefinition;
use crate::validate::{definition_issues, lemma_valid_definition_means, valid_definition};

verus! {

/// Why loading definitions failed. Underlying I/O and parse errors are kept
/// as their text.
#[derive(Debug, Clone, PartialEq, Eq)]
pub enum DefsError {
    Io { path: String, message: String },
    Parse { path: String, message: String },
    DuplicateId(String),
    Invalid { id: String, reason: String },
}

pub open spec fn defs_message(e: DefsError) -> Seq<char> {
    match e {
        DefsError::Io { path, message } => "I/O error reading "@ + path@ + ": "@ + message@,
        DefsError::Parse { path, message } => "parse error in "@ + path@ + ": "@ + message@,
        DefsError::DuplicateId(id) => "duplicate ECU definition id: "@ + id@,
        DefsError::Invalid { id, reason } => "invalid definition "@ + id@ + ": "@ + reason@,
    }
}

impl DefsError {
    /// The error in words.
    pub fn message(&self) -> (s: String)
        ensures
            s@ == defs_message(*self),
    {
        let mut s;
        match self {
            DefsError::Io { path, message } => {
                s = String::from_str("I/O error reading ");
                s.append(path.as_str());
                s.append(": ");
                s.append(message.as_str());
            },
            DefsError::Parse { path, message } => {
                s = String::from_str("parse error in ");
                s.append(path.as_str());
                s.append(": ");
                s.append(message.as_str());
            },
            DefsError::DuplicateId(id) => {
                s = String::from_str("duplicate ECU definition id: ");
                s.append(id.as_str());
            },
            DefsError::Invalid { id, reason } => {
                s = String::from_str("invalid definition ");
                s.append(id.as_str());
                s.append(": ");
                s.append(reason.as_str());
            },
        }
        s
    }
}

/// Strictly before in the order `String` compares by: character by
/// character, a proper prefix first.
pub open spec fn lex_lt(a: Seq<char>, b: Seq<char>) -> bool
    decreases a.len(),
{
    if a.len() == 0 {
        b.len() > 0
    } else if b.len() == 0 {
        false
    } else if a[0] < b[0] {
        true
    } else if a[0] == b[0] {
        lex_lt(a.drop_first(), b.drop_first())
    } else {
        false
    }
}

proof fn lemma_lex_irreflexive(a: Seq<char>)
    ensures
        !lex_lt(a, a),
    decreases a.len(),
{
    if a.len() > 0 {
        lemma_lex_irreflexive(a.drop_first());
    }
}

proof fn lemma_lex_total(a: Seq<char>, b: Seq<char>)
    ensures
        a == b || lex_lt(a, b) || lex_lt(b, a),
    decreases a.len(),
{
    if a.len() > 0 && b.len() > 0 && a[0] == b[0] {
        lemma_lex_total(a.drop_first(), b.drop_first());
        if a.drop_first() == b.drop_first() {
            assert(a =~= seq![a[0]] + a.drop_first());
            assert(b =~= seq![b[0]] + b.drop_first());
        }
    }
    if a.len() == 0 && b.len() == 0 {
        assert(a =~= b);
    }
}

proof fn lemma_lex_asym(a: Seq<char>, b: Seq<char>)
    ensures
        !(lex_lt(a, b) && lex_lt(b, a)),
    decreases a.len(),
{
    if a.len() > 0 && b.len() > 0 && a[0] == b[0] {
        lemma_lex_asym(a.drop_first(), b.drop_first());
    }
}

proof fn lemma_lex_trans(a: Seq<char>, b: Seq<char>, c: Seq<char>)
    requires
        lex_lt(a, b),
        lex_lt(b, c),
    ensures
        lex_lt(a, c),
    decreases a.len(),
{
    if a.len() > 0 && b.len() > 0 && c.len() > 0 && a[0] == b[0] && b[0] == c[0] {
        lemma_lex_trans(a.drop_first(), b.drop_first(), c.drop_first());
    }
}

/// Compare two strings in `lex_lt` order: whether `a` comes first.
fn str_lt(a: &str, b: &str) -> (r: bool)
    ensures
        r == lex_lt(a@, b@),
{
    let n = a.unicode_len();
    let m = b.unicode_len();
    let mut i: usize = 0;
    assert(a@.skip(0) =~= a@ && b@.skip(0) =~= b@);
    while i < n && i < m
        invariant
            i <= n,
            i <= m,
            n == a@.len(),
            m == b@.len(),
            lex_lt(a@, b@) == lex_lt(a@.skip(i as int), b@.skip(i as int)),
        decreases n - i,
    {
        let x = a.get_char(i);
        let y = b.get_char(i);
        assert(a@.skip(i as int)[0] == x && b@.skip(i as int)[0] == y);
        if x < y {
            return true;
        }
        if x != y {
            return false;
        }
        assert(a@.skip(i as int).drop_first() =~= a@.skip(i + 1));
        assert(b@.skip(i as int).drop_first() =~= b@.skip(i + 1));
        i = i + 1;
    }
    i == n && i < m
}

/// The index of the first definition from `i` on with this id.
pub open spec fn def_index_from(defs: Seq<EcuDefinition>, id: Seq<char>, i: int) -> Option<int>
    decreases defs.len() - i,
{
    if i < 0 || i >= defs.len() {
        None
    } else if defs[i].ecu.id@ == id {
        Some(i)
    } else {
        def_index_from(defs, id, i + 1)
    }
}

/// Definitions in strictly increasing id order, each without issues.
pub open spec fn registry_wf(defs: Seq<EcuDefinition>) -> bool {
    &&& forall|i: int, j: int|
        0 <= i < j < defs.len() ==> lex_lt(#[trigger] defs[i].ecu.id@, #[trigger] defs[j].ecu.id@)
    &&& forall|i: int| 0 <= i < defs.len() ==> valid_definition(#[trigger] defs[i])
}

/// Where an id goes in id order, or `Err` when it is already present.
fn find_slot(defs: &Vec<EcuDefinition>, id: &str) -> (r: Result<usize, ()>)
    requires
        registry_wf(defs@),
    ensures
        r matches Ok(pos) ==> pos <= defs@.len() && (forall|k: int|
            0 <= k < pos ==> lex_lt(#[trigger] defs@[k].ecu.id@, id@)) && (pos < defs@.len()
            ==> lex_lt(id@, defs@[pos as int].ecu.id@)),
        r is Err <==> exists|i: int| 0 <= i < defs@.len() && (#[trigger] defs@[i]).ecu.id@ == id@,
{
    let mut pos: usize = 0;
    while pos < defs.len()
        invariant
            pos <= defs@.len(),
            registry_wf(defs@),
            forall|k: int| 0 <= k < pos ==> lex_lt(#[trigger] defs@[k].ecu.id@, id@),
        decreases defs@.len() - pos,
    {
        if str_lt(id, defs[pos].ecu.id.as_str()) {
            proof {
                assert forall|i: int| 0 <= i < defs@.len() implies (#[trigger] defs@[i]).ecu.id@
                    != id@ by {
                    if i < pos {
                        lemma_lex_irreflexive(id@);
                    } else {
                        if i > pos {
                            lemma_lex_trans(id@, defs@[pos as int].ecu.id@, defs@[i].ecu.id@);
                        }
                        lemma_lex_irreflexive(id@);
                    }
                }
            }
            return Ok(pos);
        }
        if !str_lt(defs[pos].ecu.id.as_str(), id) {
            proof {
                lemma_lex_total(defs@[pos as int].ecu.id@, id@);
            }
            return Err(());
        }
        pos = pos + 1;
    }
    proof {
        assert forall|i: int| 0 <= i < defs@.len() implies (#[trigger] defs@[i]).ecu.id@ != id@ by {
            lemma_lex_irreflexive(id@);
        }
    }
    Ok(pos)
}

/// Inserting a definition at its slot keeps the registry well formed.
proof fn lemma_insert_sorted(before: Seq<EcuDefinition>, pos: int, def: EcuDefinition)
    requires
        registry_wf(before),
        0 <= pos <= before.len(),
        forall|k: int| 0 <= k < pos ==> lex_lt(#[trigger] before[k].ecu.id@, def.ecu.id@),
        pos < before.len() ==> lex_lt(def.ecu.id@, before[pos].ecu.id@),
        valid_definition(def),
    ensures
        registry_wf(before.insert(pos, def)),
        before.insert(pos, def).contains(def),
        forall|e: EcuDefinition| before.contains(e) ==> #[trigger] before.insert(pos, def).contains(e),
{
    let after = before.insert(pos, def);
    assert forall|i: int, j: int| 0 <= i < j < after.len() implies lex_lt(
        #[trigger] after[i].ecu.id@,
        #[trigger] after[j].ecu.id@,
    ) by {
        if j < pos {
        } else if j == pos {
        } else if i < pos {
            assert(after[j] == before[j - 1]);
            if j - 1 > pos {
                lemma_lex_trans(def.ecu.id@, before[pos].ecu.id@, before[j - 1].ecu.id@);
            }
            lemma_lex_trans(after[i].ecu.id@, def.ecu.id@, after[j].ecu.id@);
        } else if i == pos {
            assert(after[j] == before[j - 1]);
            if j - 1 > pos {
                lemma_lex_trans(def.ecu.id@, before[pos].ecu.id@, before[j - 1].ecu.id@);
            }
        } else {
            assert(after[i] == before[i - 1]);
            assert(after[j] == before[j - 1]);
        }
    }
    assert forall|i: int| 0 <= i < after.len() implies valid_definition(#[trigger] after[i]) by {
        if i < pos {
        } else if i == pos {
        } else {
            assert(after[i] == before[i - 1]);
        }
    }
    assert(after[pos] == def);
    assert forall|e: EcuDefinition| before.contains(e) implies #[trigger] after.contains(e) by {
        let k = choose|k: int| 0 <= k < before.len() && before[k] == e;
        if k < pos {
            assert(after[k] == e);
        } else {
            assert(after[k + 1] == e);
        }
    }
}

#[derive(Debug, Default)]
pub struct Registry {
    defs: Vec<EcuDefinition>,
}

impl Registry {
    /// The loaded definitions, in id order.
    pub closed spec fn defs(&self) -> Seq<EcuDefinition> {
        self.defs@
    }

    pub closed spec fn wf(&self) -> bool {
        registry_wf(self.defs@)
    }

    pub fn new() -> (r: Self)
        ensures
            r.wf(),
            r.defs().len() == 0,
    {
        Registry { defs: Vec::new() }
    }

    /// Add a definition after checking it against every rule. Invalid or
    /// duplicate-id definitions are refused and the registry is unchanged.
    pub fn add(&mut self, def: EcuDefinition) -> (r: Result<(), DefsError>)
        requires
            old(self).wf(),
        ensures
            final(self).wf(),
            definition_issues(def).len() > 0 ==> (r matches Err(DefsError::Invalid { id, reason })
                && id == def.ecu.id && reason@ == definition_issues(def)[0] && final(self).defs()
                == old(self).defs()),
            definition_issues(def).len() == 0 && (exists|i: int|
                0 <= i < old(self).defs().len() && (#[trigger] old(self).defs()[i]).ecu.id@
                    == def.ecu.id@) ==> (r matches Err(DefsError::DuplicateId(id)) && id
                == def.ecu.id && final(self).defs() == old(self).defs()),
            r is Ok ==> final(self).defs().len() == old(self).defs().len() + 1
                && final(self).defs().contains(def) && forall|e: EcuDefinition|
                old(self).defs().contains(e) ==> #[trigger] final(self).defs().contains(e),
            r is Ok ==> forall|e: EcuDefinition|
                #[trigger] final(self).defs().contains(e) && e.ecu.id@ == def.ecu.id@ ==> e == def,
    {
        match def.validate() {
            Ok(()) => {},
            Err(reason) => {
                return Err(DefsError::Invalid { id: def.ecu.id.clone(), reason });
            },
        }
        let pos = match find_slot(&self.defs, def.ecu.id.as_str()) {
            Ok(pos) => pos,
            Err(()) => {
                return Err(DefsError::DuplicateId(def.ecu.id.clone()));
            },
        };
        let ghost before = self.defs@;
        proof {
            lemma_valid_definition_means(def);
        }
        self.defs.insert(pos, def);
        proof {
            lemma_insert_sorted(before, pos as int, def);
            assert forall|e: EcuDefinition|
                #[trigger] self.defs().contains(e) && e.ecu.id@ == def.ecu.id@ implies e == def by {
                assert(self.defs@[pos as int] == def);
                lemma_one_definition_per_id(*self, e, def);
            }
        }
        Ok(())
    }

    /// The definition with this id.
    pub fn get(&self, id: &str) -> (r: Option<&EcuDefinition>)
        ensures
            r matches Some(d) ==> def_index_from(self.defs(), id@, 0) matches Some(k) && *d
                == self.defs()[k],
            r is None ==> def_index_from(self.defs(), id@, 0) is None,
            r matches Some(d) ==> self.defs().contains(*d) && d.ecu.id@ == id@,
            r is None ==> forall|i: int|
                0 <= i < self.defs().len() ==> (#[trigger] self.defs()[i]).ecu.id@ != id@,
    {
        let mut i: usize = 0;
        while i < self.defs.len()
            invariant
                i <= self.defs@.len(),
                forall|k: int| 0 <= k < i ==> (#[trigger] self.defs@[k]).ecu.id@ != id@,
                def_index_from(self.defs@, id@, 0) == def_index_from(self.defs@, id@, i as int),
            decreases self.defs@.len() - i,
        {
            if crate::text::str_eq(self.defs[i].ecu.id.as_str(), id) {
                return Some(&self.defs[i]);
            }
            i = i + 1;
        }
        None
    }

    /// All definitions, in id order.
    pub fn iter(&self) -> (r: Vec<&EcuDefinition>)
        ensures
            r@.len() == self.defs().len(),
            forall|i: int| 0 <= i < r@.len() ==> *r@[i] == self.defs()[i],
    {
        let mut r: Vec<&EcuDefinition> = Vec::new();
        let mut i: usize = 0;
        while i < self.defs.len()
            invariant
                i <= self.defs@.len(),
                r@.len() == i,
                forall|k: int| 0 <= k < i ==> *r@[k] == self.defs@[k],
            decreases self.defs@.len() - i,
        {
            r.push(&self.defs[i]);
            i = i + 1;
        }
        r
    }

    pub fn len(&self) -> (n: usize)
        ensures
            n == self.defs().len(),
    {
        self.defs.len()
    }

    pub fn is_empty(&self) -> (b: bool)
        ensures
            b == (self.defs().len() == 0),
    {
        self.defs.len() == 0
    }
}

/// A registry never holds two definitions under one id.
pub proof fn lemma_one_definition_per_id(r: Registry, a: EcuDefinition, b: EcuDefinition)
    requires
        r.wf(),
        r.defs().contains(a),
        r.defs().contains(b),
        a.ecu.id@ == b.ecu.id@,
    ensures
        a == b,
{
    let i = choose|i: int| 0 <= i < r.defs().len() && r.defs()[i] == a;
    let j = choose|j: int| 0 <= j < r.defs().len() && r.defs()[j] == b;
    if i < j {
        assert(lex_lt(r.defs()[i].ecu.id@, r.defs()[j].ecu.id@));
        lemma_lex_irreflexive(a.ecu.id@);
    } else if j < i {
        assert(lex_lt(r.defs()[j].ecu.id@, r.defs()[i].ecu.id@));
        lemma_lex_irreflexive(a.ecu.id@);
    }
}

/// Every definition a well-formed registry hands out has passed the rules,
/// so none of its requests can reach a service outside the allowed set.
pub proof fn lemma_registry_defs_valid(r: Registry, d: EcuDefinition)
    requires
        r.wf(),
        r.defs().contains(d),
    ensures
        definition_issues(d).len() == 0,
{
    let k = choose|k: int| 0 <= k < r.defs().len() && r.defs()[k] == d;
    assert(valid_definition(r.defs()[k]));
    lemma_valid_definition_means(d);
}

} // verus!
