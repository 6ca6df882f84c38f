//! Errors, scopes, values and expressions.

use crate::hmm_eval::Builtin;
use crate::model::{scope_bind, scope_child, scope_lookup, scope_root};
use crate::model::{ErrorView, ExprView, FrameView, Scope, ValView};
use std::rc::Rc;
use vstd::prelude::*;
use vstd::std_specs::convert::FromSpecImpl;

verus! {

// Error
/// Why an evaluation failed.
#[derive(Debug, Clone)]
pub enum EvalError {
    /// A value that is no function stood in function position.
    TypeMismatch(&'static str),
    /// A name had no binding anywhere along the scope chain.
    UndefinedName(String),
    /// Anything a driver wants to report, such as an exhausted step budget.
    Misc(String),
}

impl View for EvalError {
    type V = ErrorView;

    open spec fn view(&self) -> ErrorView {
        match *self {
            EvalError::TypeMismatch(reason) => ErrorView::TypeMismatch(reason@),
            EvalError::UndefinedName(name) => ErrorView::UndefinedName(name@),
            EvalError::Misc(message) => ErrorView::Misc(message@),
        }
    }
}

pub type EvalResult = Result<Rc<Val>, EvalError>;

/// The view of an evaluation result.
pub open spec fn result_view(r: EvalResult) -> Result<ValView, ErrorView> {
    match r {
        Ok(v) => Ok(v@),
        Err(e) => Err(e@),
    }
}

/// Another pointer to the value behind `rc`.
///
/// Trusted: `Rc::clone` of std, which hands out a new pointer to the same
/// allocation; the value behind it is that behind `rc`.
#[verifier::external_body]
pub(crate) fn share<T>(rc: &Rc<T>) -> (r: Rc<T>)
    ensures
        r == *rc,
{
    Rc::clone(rc)
}

// Namespace
/// The bindings of one frame, held in a persistent hash map.
#[verifier::external_body]
pub struct Bindings {
    inner: im::HashMap<Rc<String>, Rc<Val>>,
}

/// What a frame binds: each bound name with the view of its value.
pub uninterp spec fn bindings_map(b: Bindings) -> FrameView;

/// A frame that binds nothing.
///
/// Trusted: `im::HashMap::new`, which constructs an empty hash map.
#[verifier::external_body]
fn bindings_new() -> (r: Bindings)
    ensures
        bindings_map(r) =~= Map::empty(),
{
    Bindings { inner: im::HashMap::new() }
}

/// The value that `b` binds `key` to, if it binds it.
///
/// Trusted: `im::HashMap::get`, which returns the value stored under a key
/// equal to the given one, and nothing where there is none. Names are
/// compared as strings; the value comes back as a new pointer to it.
#[verifier::external_body]
fn bindings_get(b: &Bindings, key: &Rc<String>) -> (r: Option<Rc<Val>>)
    ensures
        r matches Some(v) ==> bindings_map(*b).contains_key(key@) && bindings_map(*b)[key@] == v@,
        r is None ==> !bindings_map(*b).contains_key(key@),
{
    b.inner.get(key).cloned()
}

/// A frame that binds what `b` binds, and `key` to `value`.
///
/// Trusted: `im::HashMap::update`, which constructs a new map by inserting
/// the mapping into a copy of the map; a mapping that the map already has
/// for the key is overwritten. The map it is called on stays as it is.
#[verifier::external_body]
fn bindings_update(b: &Bindings, key: Rc<String>, value: Rc<Val>) -> (r: Bindings)
    ensures
        bindings_map(r) == bindings_map(*b).insert(key@, value@),
{
    Bindings { inner: b.inner.update(key, value) }
}

/// `Ns` stands for 'Namespace': one frame of bindings and the frame it was
/// derived from. A frame is never changed once it is built.
pub struct Ns {
    current: Bindings,
    parent: Option<Rc<Ns>>,
}

impl View for Ns {
    type V = Scope;

    open spec fn view(&self) -> Scope {
        ns_view(*self)
    }
}

impl Ns {
    /// A namespace has at least the frame it was built with.
    pub proof fn lemma_view_nonempty(&self)
        ensures
            self@.len() >= 1,
    {
    }

    /// A single empty frame without a parent.
    pub fn new() -> (r: Self)
        ensures
            r@ == scope_root(),
    {
        Ns { current: bindings_new(), parent: None }
    }

    /// A new empty frame whose parent is `self`.
    pub fn child(self: Rc<Self>) -> (r: Self)
        ensures
            r@ == scope_child(self@),
    {
        Ns { current: bindings_new(), parent: Some(self) }
    }

    /// The nearest binding of `key` along the chain, from this frame to the
    /// root.
    pub fn lookup(&self, key: Rc<String>) -> (r: Option<Rc<Val>>)
        ensures
            r matches Some(v) ==> scope_lookup(self@, key@) == Some(v@),
            r is None ==> scope_lookup(self@, key@) is None,
        decreases self,
    {
        match bindings_get(&self.current, &key) {
            Some(v) => Some(v),
            None => match &self.parent {
                Some(p) => {
                    assert(self@.skip(1) =~= p@);
                    p.lookup(key)
                },
                None => {
                    assert(self@.skip(1) =~= Seq::<FrameView>::empty());
                    assert(scope_lookup(self@.skip(1), key@) is None);
                    None
                },
            },
        }
    }

    /// A frame with the bindings of this one and `key` bound to `value`, on
    /// the same parent. `self` is left as it was.
    pub fn update(&self, key: Rc<String>, value: Rc<Val>) -> (r: Self)
        ensures
            r@ == scope_bind(self@, key@, value@),
    {
        let parent = match &self.parent {
            Some(p) => Some(share(p)),
            None => None,
        };
        let r = Ns { current: bindings_update(&self.current, key, value), parent };
        assert(r@ =~= scope_bind(self@, key@, value@));
        r
    }

    /// Convenience method for populating a "Library scope" or a "Built-in scope"
    pub fn entry(&self, name: &'static str, value: Val) -> (r: Self)
        ensures
            r@ == scope_bind(self@, name@, value@),
    {
        self.update(Rc::new(name.to_owned()), Rc::new(value))
    }
}

impl Default for Ns {
    fn default() -> (r: Self)
        ensures
            r@ == scope_root(),
    {
        Self::new()
    }
}

// Values and expressions
/// The elements of a vector value, held in a persistent vector.
#[verifier::external_body]
pub struct Items {
    inner: im::Vector<Rc<Val>>,
}

/// What a vector value holds: the views of its elements, in order.
pub uninterp spec fn items_seq(items: Items) -> Seq<ValView>;

/// The views of the values behind the pointers of `values`, in order.
pub open spec fn views_of(values: Seq<Rc<Val>>) -> Seq<ValView> {
    values.map_values(|v: Rc<Val>| v@)
}

/// A persistent vector of the elements of `values`, in their order.
///
/// Trusted: `im::Vector::from` for a `Vec`, which collects the elements of
/// the `Vec` in iteration order.
#[verifier::external_body]
fn items_from_vec(values: Vec<Rc<Val>>) -> (r: Items)
    ensures
        items_seq(r) == views_of(values@),
{
    Items { inner: im::Vector::from(values) }
}

/// How many elements `items` holds.
///
/// Trusted: `im::Vector::len`, the length of the vector.
#[verifier::external_body]
pub(crate) fn items_len(items: &Items) -> (r: usize)
    ensures
        r == items_seq(*items).len(),
{
    items.inner.len()
}

/// The element of `items` at `index`, if there is one.
///
/// Trusted: `im::Vector::get`, which returns the value at the index, and
/// nothing where the index is out of bounds. The value comes back as a new
/// pointer to it.
#[verifier::external_body]
pub(crate) fn items_get(items: &Items, index: usize) -> (r: Option<Rc<Val>>)
    ensures
        r matches Some(v) ==> index < items_seq(*items).len() && v@ == items_seq(*items)[
            index as int
        ],
        r is None ==> index >= items_seq(*items).len(),
{
    items.inner.get(index).cloned()
}

impl View for Items {
    type V = Seq<ValView>;

    open spec fn view(&self) -> Seq<ValView> {
        items_seq(*self)
    }
}

impl Items {
    /// The elements of `values`, in their order, as the content of a vector
    /// value.
    pub fn from_vec(values: Vec<Rc<Val>>) -> (r: Items)
        ensures
            r@ == views_of(values@),
    {
        items_from_vec(values)
    }

    /// The elements, in order, each as a new pointer to it.
    pub fn to_vec(&self) -> (r: Vec<Rc<Val>>)
        ensures
            views_of(r@) == self@,
    {
        let n = items_len(self);
        let mut out: Vec<Rc<Val>> = Vec::new();
        let mut i: usize = 0;
        while i < n
            invariant
                i <= n,
                n == self@.len(),
                out.len() == i,
                forall|j: int| 0 <= j < i ==> (#[trigger] out[j])@ == self@[j],
            decreases n - i,
        {
            match items_get(self, i) {
                Some(v) => {
                    out.push(v);
                },
                None => {},
            }
            i = i + 1;
        }
        assert(views_of(out@) =~= self@);
        out
    }
}

/// Value, a result of an expression; a unit of data in a program.
pub enum Val {
    Int(i64),
    Str(Rc<String>),
    Vec(Items),
    Builtin(&'static str, Builtin),
    UserFn { argname: Rc<String>, body: Rc<Expr>, ns: Rc<Ns> },
}

/// Expression: the program as a tree.
pub enum Expr {
    Put(Rc<Val>),
    Name(Rc<String>),
    Call { func: Rc<Expr>, arg: Rc<Expr> },
    Lam { argname: Rc<String>, body: Rc<Expr> },
}

/// What a value is in the model. Sharing is forgotten: a pointer stands for
/// the value behind it, and a collection for what it holds.
pub open spec fn val_view(v: Val) -> ValView
    decreases v,
{
    match v {
        Val::Int(i) => ValView::Int(i as int),
        Val::Str(s) => ValView::Str(s@),
        Val::Vec(items) => ValView::Vec(items_seq(items)),
        Val::Builtin(name, b) => ValView::Builtin(name@, b),
        Val::UserFn { argname, body, ns } => ValView::UserFn {
            argname: argname@,
            body: Box::new(expr_view(*body)),
            ns: ns_view(*ns),
        },
    }
}

/// What an expression is in the model.
pub open spec fn expr_view(e: Expr) -> ExprView
    decreases e,
{
    match e {
        Expr::Put(v) => ExprView::Put(val_view(*v)),
        Expr::Name(n) => ExprView::Name(n@),
        Expr::Call { func, arg } => ExprView::Call {
            func: Box::new(expr_view(*func)),
            arg: Box::new(expr_view(*arg)),
        },
        Expr::Lam { argname, body } => ExprView::Lam {
            argname: argname@,
            body: Box::new(expr_view(*body)),
        },
    }
}

/// The frames of a namespace, innermost first.
pub closed spec fn ns_view(ns: Ns) -> Scope
    decreases ns,
{
    seq![bindings_map(ns.current)] + match ns.parent {
        Some(p) => ns_view(*p),
        None => Seq::empty(),
    }
}

impl View for Val {
    type V = ValView;

    open spec fn view(&self) -> ValView {
        val_view(*self)
    }
}

impl View for Expr {
    type V = ExprView;

    open spec fn view(&self) -> ExprView {
        expr_view(*self)
    }
}

// Conversions
impl From<i64> for Val {
    fn from(i: i64) -> (r: Val) {
        Val::Int(i)
    }
}

impl FromSpecImpl<i64> for Val {
    open spec fn obeys_from_spec() -> bool {
        true
    }

    open spec fn from_spec(i: i64) -> Val {
        Val::Int(i)
    }
}

impl From<String> for Val {
    fn from(s: String) -> (r: Val)
        ensures
            r@ == ValView::Str(s@),
    {
        Val::Str(Rc::new(s))
    }
}

impl FromSpecImpl<String> for Val {
    open spec fn obeys_from_spec() -> bool {
        true
    }

    open spec fn from_spec(s: String) -> Val {
        Val::Str(Rc::new(s))
    }
}

impl From<&'static str> for Val {
    fn from(s: &'static str) -> (r: Val)
        ensures
            r@ == ValView::Str(s@),
    {
        Val::Str(Rc::new(s.to_owned()))
    }
}

impl FromSpecImpl<&'static str> for Val {
    /// The string is copied into a fresh `String`, which no expression of
    /// the model can build: the conversion is stated by the `ensures` of
    /// `from`.
    open spec fn obeys_from_spec() -> bool {
        false
    }

    open spec fn from_spec(s: &'static str) -> Val {
        choose|v: Val| v@ == ValView::Str(s@)
    }
}

/// `item` is the view of a value that `source` converts to.
pub open spec fn converts_to<T: Into<Val>>(source: T, item: ValView) -> bool {
    exists|v: Val| call_ensures(T::into, (source,), v) && v@ == item
}

/// `items` holds, in order, the views of values that the elements of
/// `source` convert to.
pub open spec fn converted<T: Into<Val>>(source: Seq<T>, items: Seq<ValView>) -> bool {
    &&& items.len() == source.len()
    &&& forall|i: int| 0 <= i < source.len() ==> #[trigger] converts_to(source[i], items[i])
}

/// `v` is a vector value that holds what the elements of `source` convert
/// to, in order.
pub open spec fn is_vec_of<T: Into<Val>>(v: Val, source: Seq<T>) -> bool {
    v@ matches ValView::Vec(items) && converted(source, items)
}

impl<T: Into<Val>> From<Vec<T>> for Val {
    fn from(vec: Vec<T>) -> (r: Val)
        ensures
            is_vec_of(r, vec@),
    {
        let ghost source = vec@;
        let mut out: Vec<Rc<Val>> = Vec::new();
        for t in it: vec
            invariant
                it.seq() == source,
                out.len() == it.index(),
                forall|i: int|
                    0 <= i < out.len() ==> call_ensures(T::into, (it.seq()[i],), *#[trigger] out[i]),
        {
            out.push(Rc::new(t.into()));
        }
        proof {
            let items = views_of(out@);
            assert forall|i: int| 0 <= i < source.len() implies #[trigger] converts_to(
                source[i],
                items[i],
            ) by {
                assert(call_ensures(T::into, (source[i],), *out[i]));
            }
        }
        Val::Vec(items_from_vec(out))
    }
}

impl<T: Into<Val>> FromSpecImpl<Vec<T>> for Val {
    /// What the elements convert to is up to `T`: the conversion is stated
    /// by the `ensures` of `from`.
    open spec fn obeys_from_spec() -> bool {
        false
    }

    open spec fn from_spec(vec: Vec<T>) -> Val {
        choose|v: Val| is_vec_of(v, vec@)
    }
}

} // verus!
