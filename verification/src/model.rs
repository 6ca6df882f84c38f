//! The mathematical model of values, expressions and scopes.
//!
//! Executable data is shared through reference-counted pointers and persistent
//! collections; the model forgets the sharing and keeps the contents.

use crate::hmm_eval::Builtin;
use vstd::prelude::*;

verus! {

/// What a value is: the view of a [`crate::base::Val`].
pub enum ValView {
    Int(int),
    Str(Seq<char>),
    Vec(Seq<ValView>),
    /// A native function under its diagnostic name. The function itself is
    /// opaque: the model knows it only by identity.
    Builtin(Seq<char>, Builtin),
    /// A closure: parameter, body and the scope captured at its definition.
    UserFn { argname: Seq<char>, body: Box<ExprView>, ns: Scope },
}

/// What an expression is: the view of a [`crate::base::Expr`].
pub enum ExprView {
    Put(ValView),
    Name(Seq<char>),
    Call { func: Box<ExprView>, arg: Box<ExprView> },
    Lam { argname: Seq<char>, body: Box<ExprView> },
}

/// What an error is: the view of a [`crate::base::EvalError`].
pub enum ErrorView {
    TypeMismatch(Seq<char>),
    UndefinedName(Seq<char>),
    Misc(Seq<char>),
}

/// The bindings of one frame.
pub type FrameView = Map<Seq<char>, ValView>;

/// A chain of frames, innermost first: the view of a [`crate::base::Ns`].
pub type Scope = Seq<FrameView>;

/// The scope of one empty frame without a parent.
pub open spec fn scope_root() -> Scope {
    seq![Map::empty()]
}

/// A fresh empty frame in front of `scope`.
pub open spec fn scope_child(scope: Scope) -> Scope {
    seq![Map::empty()] + scope
}

/// `scope` with `key` bound to `value` in its innermost frame.
pub open spec fn scope_bind(scope: Scope, key: Seq<char>, value: ValView) -> Scope {
    if scope.len() > 0 {
        scope.update(0, scope[0].insert(key, value))
    } else {
        scope
    }
}

/// The nearest binding of `key`, walking from the innermost frame outwards.
pub open spec fn scope_lookup(scope: Scope, key: Seq<char>) -> Option<ValView>
    decreases scope.len(),
{
    if scope.len() == 0 {
        None
    } else if scope[0].contains_key(key) {
        Some(scope[0][key])
    } else {
        scope_lookup(scope.skip(1), key)
    }
}

/// The index of the first frame of `scope` that binds `key`, if any does.
pub open spec fn binding_frame(scope: Scope, key: Seq<char>, i: int) -> bool {
    &&& 0 <= i < scope.len()
    &&& scope[i].contains_key(key)
    &&& forall|j: int| 0 <= j < i ==> !(#[trigger] scope[j]).contains_key(key)
}

/// A lookup answers with the binding of the nearest frame that has one: a
/// binding in an inner frame shadows every binding of the same name further
/// out.
pub proof fn lemma_lookup_nearest(scope: Scope, key: Seq<char>, i: int)
    requires
        binding_frame(scope, key, i),
    ensures
        scope_lookup(scope, key) == Some(scope[i][key]),
    decreases scope.len(),
{
    if i > 0 {
        assert(!scope[0].contains_key(key));
        let rest = scope.skip(1);
        assert(binding_frame(rest, key, i - 1)) by {
            assert(rest[i - 1] == scope[i]);
            assert forall|j: int| 0 <= j < i - 1 implies !(#[trigger] rest[j]).contains_key(key) by {
                assert(rest[j] == scope[j + 1]);
            }
        }
        lemma_lookup_nearest(rest, key, i - 1);
    }
}

/// A lookup fails exactly when no frame of the chain binds the name.
pub proof fn lemma_lookup_unbound(scope: Scope, key: Seq<char>)
    ensures
        scope_lookup(scope, key) is None <==> forall|i: int|
            0 <= i < scope.len() ==> !(#[trigger] scope[i]).contains_key(key),
    decreases scope.len(),
{
    if scope.len() > 0 {
        let rest = scope.skip(1);
        lemma_lookup_unbound(rest, key);
        if scope_lookup(scope, key) is None {
            assert forall|i: int| 0 <= i < scope.len() implies !(#[trigger] scope[i]).contains_key(
                key,
            ) by {
                if i > 0 {
                    assert(rest[i - 1] == scope[i]);
                }
            }
        } else if !scope[0].contains_key(key) {
            let j = choose|j: int| 0 <= j < rest.len() && (#[trigger] rest[j]).contains_key(key);
            assert(scope[j + 1] == rest[j]);
        }
    }
}

/// A name bound in a child frame is found there, whatever the frames behind
/// it bind under the same name.
pub proof fn lemma_child_binding_shadows(scope: Scope, key: Seq<char>, value: ValView)
    ensures
        scope_lookup(scope_bind(scope_child(scope), key, value), key) == Some(value),
{
}

/// Binding a name in a frame derived from `scope` leaves `scope` as it was:
/// the chain behind the new frame is `scope` itself, so every lookup that
/// starts there answers as before.
pub proof fn lemma_bind_keeps_parent(scope: Scope, key: Seq<char>, value: ValView)
    ensures
        scope_bind(scope_child(scope), key, value).skip(1) == scope,
        scope_child(scope).skip(1) == scope,
        scope_bind(scope, key, value).skip(1) == scope.skip(1),
        scope_bind(scope, key, value).len() == scope.len(),
{
    assert(scope_bind(scope_child(scope), key, value).skip(1) =~= scope);
    assert(scope_child(scope).skip(1) =~= scope);
    assert(scope_bind(scope, key, value).skip(1) =~= scope.skip(1));
}

/// Binding `key` changes no lookup of another name; a lookup through a
/// derived frame falls through to the frame it was derived from.
pub proof fn lemma_bind_other_name(scope: Scope, key: Seq<char>, value: ValView, other: Seq<char>)
    requires
        other != key,
    ensures
        scope_lookup(scope_bind(scope, key, value), other) == scope_lookup(scope, other),
        scope_lookup(scope_bind(scope_child(scope), key, value), other) == scope_lookup(
            scope,
            other,
        ),
        scope_lookup(scope_child(scope), other) == scope_lookup(scope, other),
{
    lemma_bind_keeps_parent(scope, key, value);
}

} // verus!
