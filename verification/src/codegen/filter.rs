//! Which type parameters and where clauses the type of symbols carries.
use crate::codegen::input::Input;
use crate::text::views;
use vstd::prelude::*;

verus! {

fn contains(list: &Vec<usize>, item: usize) -> (found: bool)
    ensures
        found == list@.contains(item),
{
    let mut k: usize = 0;
    while k < list.len()
        invariant
            k <= list.len(),
            forall|j: int| 0 <= j < k ==> list@[j] != item,
        decreases list.len() - k,
    {
        if list[k] == item {
            return true;
        }
        k += 1;
    }
    false
}

impl<'a, 'grammar> Input<'a, 'grammar> {
    fn nonterminal_uses_parameter(&self, parameter: usize) -> (used: bool)
        requires
            self.wf(),
        ensures
            used == exists|n: int|
                0 <= n < self.grammar.types.nonterminal_types@.len()
                    && self.grammar.types.all@[(
                #[trigger] self.grammar.types.nonterminal_types@[n]).0 as int].referenced@.contains(
                    parameter,
                ),
    {
        let types = &self.grammar.types;
        let mut n: usize = 0;
        while n < types.nonterminal_types.len()
            invariant
                types == &self.grammar.types,
                types.wf(),
                n <= types.nonterminal_types.len(),
                forall|k: int|
                    0 <= k < n ==> !types.all@[(#[trigger] types.nonterminal_types@[k]).0 as int]
                        .referenced@.contains(parameter),
            decreases types.nonterminal_types.len() - n,
        {
            let found = contains(&types.all[types.nonterminal_types[n].0].referenced, parameter);
            if found {
                return true;
            }
            n += 1;
        }
        false
    }

    fn terminal_uses_parameter(&self, parameter: usize) -> (used: bool)
        requires
            self.wf(),
        ensures
            used == exists|t: int|
                0 <= t < self.grammar.types.terminal_types@.len() && (
                #[trigger] self.grammar.types.terminal_types@[t] matches Some(ty)
                    && self.grammar.types.all@[ty.0 as int].referenced@.contains(parameter)),
    {
        let types = &self.grammar.types;
        let mut t: usize = 0;
        while t < types.terminal_types.len()
            invariant
                types == &self.grammar.types,
                types.wf(),
                t <= types.terminal_types.len(),
                forall|k: int|
                    0 <= k < t ==> (#[trigger] types.terminal_types@[k] matches Some(ty)
                        ==> !types.all@[ty.0 as int].referenced@.contains(parameter)),
            decreases types.terminal_types.len() - t,
        {
            if let Some(ty) = types.terminal_types[t] {
                assert(types.terminal_types@[t as int] == Some(ty));
                let found = contains(&types.all[ty.0].referenced, parameter);
                if found {
                    return true;
                }
            }
            t += 1;
        }
        false
    }

    fn clause_uses_parameters(&self, clause: usize) -> (used: bool)
        requires
            self.wf(),
            clause < self.grammar.where_clauses@.len(),
        ensures
            used == self.clause_is_used(clause as int),
    {
        let referenced = &self.grammar.where_clauses[clause].referenced;
        let mut k: usize = 0;
        while k < referenced.len()
            invariant
                self.wf(),
                clause < self.grammar.where_clauses@.len(),
                referenced@ == self.grammar.where_clauses@[clause as int].referenced@,
                k <= referenced.len(),
                forall|j: int|
                    0 <= j < k ==> {
                        &&& #[trigger] referenced@[j] < self.grammar.type_parameters@.len()
                        &&& self.parameter_is_used(referenced@[j])
                    },
            decreases referenced.len() - k,
        {
            let parameter: usize = referenced[k];
            assert(referenced@[k as int] == parameter);
            if parameter >= self.grammar.type_parameters.len() {
                return false;
            }
            if !self.nonterminal_uses_parameter(parameter) && !self.terminal_uses_parameter(
                parameter,
            ) {
                return false;
            }
            k += 1;
        }
        true
    }

    /// The type parameters that the symbols' types refer to, and the where
    /// clauses that speak only of those.
    pub fn filter_type_parameters_and_where_clauses(&self) -> (filtered: (
        Vec<String>,
        Vec<String>,
    ))
        requires
            self.wf(),
        ensures
            views(filtered.0@) == self.symbol_parameters(),
            views(filtered.1@) == self.symbol_clauses(),
    {
        let mut parameters: Vec<String> = Vec::new();
        let mut i: usize = 0;
        assert(views(parameters@) =~= seq![]);
        while i < self.grammar.type_parameters.len()
            invariant
                self.wf(),
                i <= self.grammar.type_parameters.len(),
                views(parameters@) == self.used_parameters(i as nat),
            decreases self.grammar.type_parameters.len() - i,
        {
            if self.nonterminal_uses_parameter(i) || self.terminal_uses_parameter(i) {
                let ghost before = parameters@;
                parameters.push(self.grammar.type_parameters[i].text().to_owned());
                assert(views(parameters@) =~= views(before).push(
                    self.grammar.type_parameters@[i as int].name(),
                ));
            }
            i += 1;
        }
        let mut clauses: Vec<String> = Vec::new();
        let mut i: usize = 0;
        assert(views(clauses@) =~= seq![]);
        while i < self.grammar.where_clauses.len()
            invariant
                self.wf(),
                i <= self.grammar.where_clauses.len(),
                views(clauses@) == self.used_clauses(i as nat),
            decreases self.grammar.where_clauses.len() - i,
        {
            if self.clause_uses_parameters(i) {
                let ghost before = clauses@;
                clauses.push(self.grammar.where_clauses[i].text.clone());
                assert(views(clauses@) =~= views(before).push(
                    self.grammar.where_clauses@[i as int].text@,
                ));
            }
            i += 1;
        }
        (parameters, clauses)
    }
}

} // verus!
