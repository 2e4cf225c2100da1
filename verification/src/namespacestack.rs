//! The chain of active scopes.

use vstd::prelude::*;
use crate::error::{EvalError, EvalErrorView};
use crate::identifier::Identifier;
use crate::memory::{Address, AddressView};
use crate::namespace::{
    result_unit_view,
    result_value_view,
    scope_declare,
    scope_find,
    scope_set,
    NameSpace,
    Scope,
};
use crate::parsing::value::{Value, ValueView};

verus! {

/// The mathematical view of the scope stack: the scopes from the outermost,
/// at index 0, to the innermost, at the end.
pub type Scopes = Seq<Scope>;

/// The depth of the innermost scope that binds `id`, if any scope does.
pub open spec fn owner(scopes: Scopes, id: Seq<char>) -> Option<nat>
    decreases scopes.len(),
{
    if scopes.len() == 0 {
        None
    } else if scopes.last().contains_key(id) {
        Some((scopes.len() - 1) as nat)
    } else {
        owner(scopes.drop_last(), id)
    }
}

/// The outcome of looking `id` up through the scope chain.
pub open spec fn stack_find(scopes: Scopes, id: Seq<char>) -> Result<ValueView, EvalErrorView> {
    match owner(scopes, id) {
        Some(depth) => Ok(scopes[depth as int][id].value),
        None => Err(EvalErrorView::Undefined(id)),
    }
}

/// The outcome of declaring `id` in the innermost scope, and the stack
/// afterwards.
pub open spec fn stack_declare(scopes: Scopes, id: Seq<char>, mutable: bool, value: ValueView) -> (
    Result<(), EvalErrorView>,
    Scopes,
) {
    if scopes.len() == 0 {
        (Err(EvalErrorView::NoScope), scopes)
    } else {
        let (r, top) = scope_declare(scopes.last(), id, mutable, value);
        (r, scopes.update(scopes.len() - 1, top))
    }
}

/// The outcome of writing `value` to `id` through the scope chain, and the
/// stack afterwards. The innermost scope that binds the name decides alone.
pub open spec fn stack_set(scopes: Scopes, id: Seq<char>, value: ValueView) -> (
    Result<(), EvalErrorView>,
    Scopes,
) {
    match owner(scopes, id) {
        Some(depth) => {
            let (r, scope) = scope_set(scopes[depth as int], id, value);
            (r, scopes.update(depth as int, scope))
        },
        None => (Err(EvalErrorView::Undefined(id)), scopes),
    }
}

/// The address of `id`: the depth of the innermost scope that binds it,
/// with the name.
pub open spec fn stack_address(scopes: Scopes, id: Seq<char>) -> Result<
    AddressView,
    EvalErrorView,
> {
    match owner(scopes, id) {
        Some(depth) => Ok(AddressView::StackAddress(depth, id)),
        None => Err(EvalErrorView::Undefined(id)),
    }
}

/// `owner` finds the innermost scope that binds the name: no scope above it
/// binds the name, and `None` means that no scope does.
pub proof fn lemma_owner(scopes: Scopes, id: Seq<char>)
    ensures
        match owner(scopes, id) {
            Some(depth) => {
                &&& depth < scopes.len()
                &&& scopes[depth as int].contains_key(id)
                &&& forall|i: int| depth < i < scopes.len() ==> !(#[trigger] scopes[i]).contains_key(id)
            },
            None => forall|i: int| 0 <= i < scopes.len() ==> !(#[trigger] scopes[i]).contains_key(id),
        },
    decreases scopes.len(),
{
    if scopes.len() > 0 && !scopes.last().contains_key(id) {
        lemma_owner(scopes.drop_last(), id);
        assert forall|i: int| 0 <= i < scopes.len() - 1 implies scopes.drop_last()[i]
            == scopes[i] by {}
    }
}

/// The scope stack: the active scopes, innermost last.
pub struct NameSpaceStack {
    stack: Vec<NameSpace>,
}

impl View for NameSpaceStack {
    type V = Scopes;

    closed spec fn view(&self) -> Scopes {
        Seq::new(self.stack@.len(), |i: int| self.stack@[i]@)
    }
}

impl NameSpaceStack {
    /// A stack without scopes.
    pub fn new() -> (nss: NameSpaceStack)
        ensures
            nss@ == Scopes::empty(),
    {
        let nss = NameSpaceStack { stack: Vec::new() };
        assert(nss@ =~= Scopes::empty());
        nss
    }

    /// Enters `ns` as the innermost scope.
    pub fn push(&mut self, ns: NameSpace)
        ensures
            final(self)@ == old(self)@.push(ns@),
    {
        self.stack.push(ns);
        assert(self@ =~= old(self)@.push(ns@));
    }

    /// Leaves the innermost scope and returns it; `None`, and no change,
    /// when no scope is active.
    pub fn pop(&mut self) -> (ns: Option<NameSpace>)
        ensures
            old(self)@.len() == 0 ==> ns is None && final(self)@ == old(self)@,
            old(self)@.len() > 0 ==> (ns matches Some(top) && top@ == old(self)@.last()
                && final(self)@ == old(self)@.drop_last()),
    {
        let ns = self.stack.pop();
        assert(old(self)@.len() > 0 ==> self@ =~= old(self)@.drop_last());
        assert(old(self)@.len() == 0 ==> self@ =~= old(self)@);
        ns
    }

    /// The number of active scopes.
    pub fn depth(&self) -> (n: usize)
        ensures
            n == self@.len(),
    {
        self.stack.len()
    }

    /// The value of `id` in the innermost scope that binds it.
    pub fn find(&self, id: &Identifier) -> (r: Result<Value, EvalError>)
        ensures
            result_value_view(r) == stack_find(self@, id@),
    {
        let mut i: usize = self.stack.len();
        while i > 0
            invariant
                i <= self.stack@.len(),
                forall|j: int| i <= j < self@.len() ==> !(#[trigger] self@[j]).contains_key(id@),
            decreases i,
        {
            i = i - 1;
            assert(self@[i as int] == self.stack@[i as int]@);
            if let Ok(v) = self.stack[i].find(id) {
                proof {
                    lemma_owner(self@, id@);
                }
                return Ok(v);
            }
        }
        proof {
            lemma_owner(self@, id@);
        }
        Err(EvalError::Undefined(id.clone()))
    }

    /// Binds `id` in the innermost scope; fails when that scope binds it
    /// already, and when no scope is active.
    pub fn declare(&mut self, id: &Identifier, mutable: bool, value: Value) -> (r: Result<
        (),
        EvalError,
    >)
        ensures
            result_unit_view(r) == stack_declare(old(self)@, id@, mutable, value@).0,
            final(self)@ == stack_declare(old(self)@, id@, mutable, value@).1,
    {
        let n = self.stack.len();
        if n == 0 {
            return Err(EvalError::NoScope);
        }
        let r = self.stack[n - 1].declare(id, mutable, value);
        assert(self@ =~= stack_declare(old(self)@, id@, mutable, value@).1);
        r
    }

    /// Writes `value` to `id` in the innermost scope that binds it; that
    /// binding's own mutability decides whether the write is allowed.
    pub fn set(&mut self, id: &Identifier, value: Value) -> (r: Result<(), EvalError>)
        ensures
            result_unit_view(r) == stack_set(old(self)@, id@, value@).0,
            final(self)@ == stack_set(old(self)@, id@, value@).1,
    {
        let mut i: usize = self.stack.len();
        while i > 0
            invariant
                i <= self.stack@.len(),
                self@ == old(self)@,
                forall|j: int| i <= j < self@.len() ==> !(#[trigger] self@[j]).contains_key(id@),
            decreases i,
        {
            i = i - 1;
            assert(self@[i as int] == self.stack@[i as int]@);
            let res = self.stack[i].set(id, value.clone());
            proof {
                lemma_owner(old(self)@, id@);
                assert(self@ =~= old(self)@.update(
                    i as int,
                    scope_set(old(self)@[i as int], id@, value@).1,
                ));
            }
            match res {
                Ok(()) => {
                    return Ok(());
                },
                Err(EvalError::Undefined(_)) => {},
                Err(e) => {
                    return Err(e);
                },
            }
        }
        proof {
            lemma_owner(self@, id@);
        }
        Err(EvalError::Undefined(id.clone()))
    }

    /// The address of `id`: the depth of the innermost scope that binds it,
    /// counted from the bottom of the stack, with the name.
    pub fn get_address(&self, id: &Identifier) -> (r: Result<Address, EvalError>)
        ensures
            result_address_view(r) == stack_address(self@, id@),
    {
        let mut index: usize = self.stack.len();
        while index > 0
            invariant
                index <= self.stack@.len(),
                forall|j: int| index <= j < self@.len() ==> !(#[trigger] self@[j]).contains_key(id@),
            decreases index,
        {
            index = index - 1;
            assert(self@[index as int] == self.stack@[index as int]@);
            if self.stack[index].find(id).is_ok() {
                proof {
                    lemma_owner(self@, id@);
                }
                return Ok(Address::StackAddress(index, id.clone()));
            }
        }
        proof {
            lemma_owner(self@, id@);
        }
        Err(EvalError::Undefined(id.clone()))
    }
}

/// The view of the outcome of an operation that yields an address.
pub open spec fn result_address_view(r: Result<Address, EvalError>) -> Result<
    AddressView,
    EvalErrorView,
> {
    match r {
        Ok(a) => Ok(a@),
        Err(e) => Err(e@),
    }
}

} // verus!
