//! One lexical scope.

use vstd::prelude::*;
use vstd::hash_map::StringHashMap;
use crate::error::{EvalError, EvalErrorView};
use crate::identifier::Identifier;
use crate::memorycell::{CellView, MemoryCell};
use crate::parsing::expression::{Expression, ExpressionView};
use crate::parsing::value::{Value, ValueView};

verus! {

/// What a scope records for a name.
pub struct Binding {
    pub mutable: bool,
    pub value: ValueView,
}

/// The mathematical view of a scope: a map from names to bindings.
pub type Scope = Map<Seq<char>, Binding>;

/// The outcome of declaring `id` in `scope`: a failure if the scope binds
/// the name already, and the scope afterwards.
pub open spec fn scope_declare(scope: Scope, id: Seq<char>, mutable: bool, value: ValueView) -> (
    Result<(), EvalErrorView>,
    Scope,
) {
    if scope.contains_key(id) {
        (Err(EvalErrorView::AlreadyDefined(id)), scope)
    } else {
        (Ok(()), scope.insert(id, Binding { mutable, value }))
    }
}

/// The outcome of looking `id` up in `scope` alone.
pub open spec fn scope_find(scope: Scope, id: Seq<char>) -> Result<ValueView, EvalErrorView> {
    if scope.contains_key(id) {
        Ok(scope[id].value)
    } else {
        Err(EvalErrorView::Undefined(id))
    }
}

/// The outcome of writing `value` to `id` in `scope` alone, and the scope
/// afterwards. The write replaces the value whatever its kind.
pub open spec fn scope_set(scope: Scope, id: Seq<char>, value: ValueView) -> (
    Result<(), EvalErrorView>,
    Scope,
) {
    if !scope.contains_key(id) {
        (Err(EvalErrorView::Undefined(id)), scope)
    } else if !scope[id].mutable {
        (Err(EvalErrorView::NotMutable(Some(ExpressionView::Identifier(id)))), scope)
    } else {
        (Ok(()), scope.insert(id, Binding { mutable: true, value }))
    }
}

/// One lexical scope: the bindings declared in it, by name.
pub struct NameSpace(StringHashMap<MemoryCell>);

impl NameSpace {
    /// Every cell of a scope is allocated and holds a value.
    #[verifier::type_invariant]
    spec fn cells_hold_values(self) -> bool {
        forall|id: Seq<char>| #[trigger]
            self.0@.contains_key(id) ==> (self.0@[id]@ matches CellView::Allocated {
                value: Some(_),
                ..
            })
    }

    /// What a cell that holds a value records.
    spec fn binding_of(cell: CellView) -> Binding {
        Binding { mutable: cell->mutable, value: cell->value->0 }
    }
}

impl View for NameSpace {
    type V = Scope;

    closed spec fn view(&self) -> Scope {
        Map::new(
            |id: Seq<char>| self.0@.contains_key(id),
            |id: Seq<char>| Self::binding_of(self.0@[id]@),
        )
    }
}

impl NameSpace {
    /// A scope without bindings.
    pub fn new() -> (ns: NameSpace)
        ensures
            ns@ == Scope::empty(),
    {
        let ns = NameSpace(StringHashMap::new());
        assert(ns@ =~= Scope::empty());
        ns
    }

    /// Stores `cell` under `id`, in place of any cell stored there before.
    fn put(&mut self, id: &Identifier, cell: MemoryCell)
        requires
            cell@ matches CellView::Allocated { value: Some(_), .. },
        ensures
            final(self).0@ == old(self).0@.insert(id@, cell),
    {
        proof {
            use_type_invariant(&*self);
        }
        // The map is taken out for the insertion and put back: the type
        // invariant has to hold whenever the field is borrowed mutably.
        let mut cells = StringHashMap::new();
        std::mem::swap(&mut self.0, &mut cells);
        cells.insert(id.clone().into_string(), cell);
        self.0 = cells;
    }

    /// Binds `id` in this scope, unless the scope binds it already.
    pub fn declare(&mut self, id: &Identifier, mutable: bool, value: Value) -> (r: Result<
        (),
        EvalError,
    >)
        ensures
            result_unit_view(r) == scope_declare(old(self)@, id@, mutable, value@).0,
            final(self)@ == scope_declare(old(self)@, id@, mutable, value@).1,
    {
        proof {
            use_type_invariant(&*self);
        }
        if self.0.contains_key(id.as_str()) {
            Err(EvalError::AlreadyDefined(id.clone()))
        } else {
            self.put(id, MemoryCell::new(mutable, value));
            assert(self@ =~= old(self)@.insert(id@, Binding { mutable, value: value@ }));
            Ok(())
        }
    }

    /// The value that this scope binds `id` to. Other scopes are not
    /// searched.
    pub fn find(&self, id: &Identifier) -> (r: Result<Value, EvalError>)
        ensures
            result_value_view(r) == scope_find(self@, id@),
    {
        proof {
            use_type_invariant(self);
        }
        match self.0.get(id.as_str()) {
            Some(cell) => match cell.get_value() {
                Ok(value) => Ok(value.clone()),
                Err(e) => Err(e),
            },
            None => Err(EvalError::Undefined(id.clone())),
        }
    }

    /// Replaces the value that this scope binds `id` to, if the scope binds
    /// it as mutable.
    pub fn set(&mut self, id: &Identifier, value: Value) -> (r: Result<(), EvalError>)
        ensures
            result_unit_view(r) == scope_set(old(self)@, id@, value@).0,
            final(self)@ == scope_set(old(self)@, id@, value@).1,
    {
        proof {
            use_type_invariant(&*self);
        }
        match self.0.get(id.as_str()) {
            Some(cell) => {
                if !cell.is_mutable() {
                    return Err(
                        EvalError::NotMutable(Some(Expression::Identifier(id.clone()))),
                    );
                }
                self.put(id, MemoryCell::new(true, value));
                assert(self@ =~= old(self)@.insert(id@, Binding { mutable: true, value: value@ }));
                Ok(())
            },
            None => Err(EvalError::Undefined(id.clone())),
        }
    }
}

/// The view of the outcome of an operation that yields a value.
pub open spec fn result_value_view(r: Result<Value, EvalError>) -> Result<
    ValueView,
    EvalErrorView,
> {
    match r {
        Ok(v) => Ok(v@),
        Err(e) => Err(e@),
    }
}

/// The view of the outcome of an operation that yields nothing.
pub open spec fn result_unit_view(r: Result<(), EvalError>) -> Result<(), EvalErrorView> {
    match r {
        Ok(()) => Ok(()),
        Err(e) => Err(e@),
    }
}

} // verus!
