//! The variables of the shell: names bound to values.
//!
//! Assignments bind, references look up. A name is a non-empty run of ASCII
//! letters, ASCII digits and underscores; nothing else is ever bound.

use vstd::prelude::*;
use vstd::string::StringExecFns;
use crate::chars::{collect_chars, same_text};
use crate::parser::{all_in_class, class_accepts, ASTExpr, CharClass, Expr};

verus! {

/// Whether `name` can name a variable.
pub open spec fn valid_name(name: Seq<char>) -> bool {
    name.len() > 0 && all_in_class(CharClass::Name, name)
}

/// The bindings that a list of definitions amounts to: a later definition of
/// a name replaces an earlier one.
pub open spec fn bindings_of(entries: Seq<(Seq<char>, Seq<char>)>) -> Map<Seq<char>, Seq<char>>
    decreases entries.len(),
{
    if entries.len() == 0 {
        Map::empty()
    } else {
        bindings_of(entries.drop_last()).insert(entries.last().0, entries.last().1)
    }
}

/// The texts of a list of definitions.
pub open spec fn entries_view(entries: Seq<(String, String)>) -> Seq<(Seq<char>, Seq<char>)> {
    entries.map_values(|entry: (String, String)| (entry.0@, entry.1@))
}

/// What evaluating an assignment or a reference came to.
#[derive(Debug, PartialEq, Eq)]
pub enum Evaluation {
    /// The variable is now bound to the value of the assignment.
    Defined,
    /// The variable referred to is bound to this value.
    Expanded(String),
    /// The variable referred to is not bound.
    Unbound,
    /// The name assigned to cannot name a variable; nothing was bound.
    Rejected,
}

/// The mathematical value of an [`Evaluation`].
pub enum EvaluationModel {
    Defined,
    Expanded(Seq<char>),
    Unbound,
    Rejected,
}

impl View for Evaluation {
    type V = EvaluationModel;

    open spec fn view(&self) -> EvaluationModel {
        match *self {
            Evaluation::Defined => EvaluationModel::Defined,
            Evaluation::Expanded(value) => EvaluationModel::Expanded(value@),
            Evaluation::Unbound => EvaluationModel::Unbound,
            Evaluation::Rejected => EvaluationModel::Rejected,
        }
    }
}

/// What evaluating `expr` comes to when the bindings are `bindings`.
pub open spec fn evaluation_of(bindings: Map<Seq<char>, Seq<char>>, expr: Expr) -> EvaluationModel {
    match expr {
        Expr::DefineVar(name, _) => if valid_name(name) {
            EvaluationModel::Defined
        } else {
            EvaluationModel::Rejected
        },
        Expr::SubstituteVar(name) => if bindings.contains_key(name) {
            EvaluationModel::Expanded(bindings[name])
        } else {
            EvaluationModel::Unbound
        },
    }
}

/// The bindings after `expr` was evaluated when the bindings were `bindings`.
pub open spec fn bindings_after(bindings: Map<Seq<char>, Seq<char>>, expr: Expr) -> Map<
    Seq<char>,
    Seq<char>,
> {
    match expr {
        Expr::DefineVar(name, value) => if valid_name(name) {
            bindings.insert(name, value)
        } else {
            bindings
        },
        Expr::SubstituteVar(_) => bindings,
    }
}

/// The variables of the shell. Its value is the map from each bound name to
/// the value it is bound to.
pub struct VariableTable {
    entries: Vec<(String, String)>,
}

impl View for VariableTable {
    type V = Map<Seq<char>, Seq<char>>;

    closed spec fn view(&self) -> Map<Seq<char>, Seq<char>> {
        bindings_of(entries_view(self.entries@))
    }
}

/// Whether `name` can name a variable.
pub fn is_valid_name(name: &str) -> (valid: bool)
    ensures
        valid == valid_name(name@),
{
    let chars = collect_chars(name);
    if chars.len() == 0 {
        return false;
    }
    let mut i: usize = 0;
    while i < chars.len()
        invariant
            chars@ == name@,
            i <= chars.len(),
            forall|j: int| 0 <= j < i ==> crate::parser::in_class(CharClass::Name, #[trigger] chars@[j]),
        decreases chars.len() - i,
    {
        if !class_accepts(CharClass::Name, chars[i]) {
            return false;
        }
        i += 1;
    }
    true
}

impl VariableTable {
    /// Every name that is bound can name a variable.
    pub closed spec fn wf(&self) -> bool {
        forall|i: int| 0 <= i < self.entries@.len() ==> valid_name((#[trigger] self.entries@[i]).0@)
    }

    /// A table in which no name is bound.
    pub fn new() -> (table: VariableTable)
        ensures
            table.wf(),
            table@ == Map::<Seq<char>, Seq<char>>::empty(),
    {
        VariableTable { entries: Vec::new() }
    }

    /// Binds `name` to `value`, in place of what it was bound to, if `name`
    /// can name a variable; else changes nothing. Says whether it bound.
    pub fn define(&mut self, name: &str, value: &str) -> (bound: bool)
        ensures
            old(self).wf() ==> final(self).wf(),
            bound == valid_name(name@),
            final(self)@ == if bound {
                old(self)@.insert(name@, value@)
            } else {
                old(self)@
            },
    {
        if !is_valid_name(name) {
            return false;
        }
        let ghost before = entries_view(self.entries@);
        self.entries.push((String::from_str(name), String::from_str(value)));
        assert(entries_view(self.entries@) =~= before.push((name@, value@)));
        assert(entries_view(self.entries@).drop_last() =~= before);
        true
    }

    /// The value that `name` is bound to, if it is bound.
    pub fn lookup(&self, name: &str) -> (value: Option<String>)
        ensures
            match value {
                Some(v) => self@.contains_key(name@) && v@ == self@[name@],
                None => !self@.contains_key(name@),
            },
    {
        let ghost all = entries_view(self.entries@);
        let mut i: usize = self.entries.len();
        assert(all.take(i as int) =~= all);
        while i > 0
            invariant
                i <= self.entries.len(),
                all == entries_view(self.entries@),
                bindings_of(all).contains_key(name@) == bindings_of(all.take(i as int)).contains_key(
                    name@,
                ),
                bindings_of(all).contains_key(name@) ==> bindings_of(all)[name@] == bindings_of(
                    all.take(i as int),
                )[name@],
            decreases i,
        {
            i -= 1;
            assert(all.take(i + 1).drop_last() =~= all.take(i as int));
            assert(all.take(i + 1).last() == all[i as int]);
            if same_text(self.entries[i].0.as_str(), name) {
                return Some(self.entries[i].1.clone());
            }
        }
        None
    }

    /// Evaluates an assignment or a reference: an assignment binds its name
    /// to its value, a reference yields the value that its name is bound to.
    pub fn evaluate(&mut self, expr: &ASTExpr) -> (result: Evaluation)
        ensures
            old(self).wf() ==> final(self).wf(),
            result@ == evaluation_of(old(self)@, expr@),
            final(self)@ == bindings_after(old(self)@, expr@),
    {
        match expr {
            ASTExpr::DefineVar(name, value) => {
                if self.define(name, value) {
                    Evaluation::Defined
                } else {
                    Evaluation::Rejected
                }
            },
            ASTExpr::SubstituteVar(name) => {
                match self.lookup(name) {
                    Some(value) => Evaluation::Expanded(value),
                    None => Evaluation::Unbound,
                }
            },
        }
    }

    /// Every name that is bound can name a variable.
    pub proof fn lemma_bound_names_are_valid(&self)
        requires
            self.wf(),
        ensures
            forall|name: Seq<char>| self@.contains_key(name) ==> valid_name(name),
    {
        lemma_keys_come_from_entries(entries_view(self.entries@));
        assert forall|name: Seq<char>| self@.contains_key(name) implies valid_name(name) by {
            let entries = entries_view(self.entries@);
            let i = choose|i: int| 0 <= i < entries.len() && entries[i].0 == name;
            assert(entries[i].0 == self.entries@[i].0@);
        }
    }
}

/// Every name that a list of definitions binds is the name of one of them.
pub proof fn lemma_keys_come_from_entries(entries: Seq<(Seq<char>, Seq<char>)>)
    ensures
        forall|name: Seq<char>|
            bindings_of(entries).contains_key(name) ==> exists|i: int|
                0 <= i < entries.len() && (#[trigger] entries[i]).0 == name,
    decreases entries.len(),
{
    if entries.len() > 0 {
        lemma_keys_come_from_entries(entries.drop_last());
        assert forall|name: Seq<char>| bindings_of(entries).contains_key(name) implies exists|
            i: int,
        |
            0 <= i < entries.len() && (#[trigger] entries[i]).0 == name by {
            if name == entries.last().0 {
                assert(entries[entries.len() - 1].0 == name);
            } else {
                let front = entries.drop_last();
                assert(bindings_of(front).contains_key(name));
                let i = choose|i: int| 0 <= i < front.len() && (#[trigger] front[i]).0 == name;
                assert(entries[i] == front[i]);
            }
        }
    }
}

/// Law of binding: a reference to a name that was just bound yields the
/// value it was bound to, and every other name is bound as before.
pub proof fn lemma_define_then_lookup(
    bindings: Map<Seq<char>, Seq<char>>,
    name: Seq<char>,
    value: Seq<char>,
    other: Seq<char>,
)
    requires
        valid_name(name),
        other != name,
    ensures
        evaluation_of(
            bindings_after(bindings, Expr::DefineVar(name, value)),
            Expr::SubstituteVar(name),
        ) == EvaluationModel::Expanded(value),
        evaluation_of(
            bindings_after(bindings, Expr::DefineVar(name, value)),
            Expr::SubstituteVar(other),
        ) == evaluation_of(bindings, Expr::SubstituteVar(other)),
{
}

} // verus!
