use vstd::prelude::*;
use crate::error::Error;
use crate::instruction::Comparison;
use crate::instruction::Instruction;
use crate::instruction::Reporter;
use crate::ops::ArithOp;
use crate::ops::arith_spec;
use crate::ops::compare_spec;
use crate::ops::concat_spec;
use crate::ops::exponent_spec;
use crate::ops::logic_spec;
use crate::ops::negative_spec;
use crate::ops::not_spec;
use crate::ops::type_error_spec;
use crate::owned::OwnedReporter;
use crate::span::Chunk;
use crate::span::Span;
use crate::stdlib::NativeFn;
use crate::stdlib::Range;
use crate::value::val_eq;
use crate::value::MapEntry;
use crate::value::MapEntryView;
use crate::value::Value;
use crate::value::ValueView;
use crate::value::entries_view;
use crate::value::lemma_entries_view;
use crate::value::lookup_view;
use crate::value::string_eq;

verus! {

/// The mathematical image of one runtime scope.
pub struct ScopeView {
    pub parent: Option<int>,
    pub vars: Seq<MapEntryView>,
}

/// One runtime scope: an owned name-to-value dictionary and an optional
/// reference to a parent scope. Scopes live in the interpreter's arena and
/// are referred to by index, so many closures and chain links can alias one
/// scope, and a mutation through any of them is seen by all.
#[derive(Debug)]
pub struct Scope {
    pub parent: Option<usize>,
    pub variables: Vec<MapEntry>,
}

impl Scope {
    pub open spec fn vw(self) -> ScopeView {
        ScopeView {
            parent: match self.parent {
                Option::Some(p) => Option::Some(p as int),
                Option::None => Option::None,
            },
            vars: entries_view(self.variables@),
        }
    }

    /// A fresh scope with no bindings.
    pub fn new(parent: Option<usize>) -> (s: Scope)
        ensures
            s.vw().parent == match parent {
                Option::Some(p) => Option::Some(p as int),
                Option::None => Option::<int>::None,
            },
            s.vw().vars == Seq::<MapEntryView>::empty(),
    {
        let s = Scope { parent, variables: Vec::new() };
        proof {
            assert(entries_view(s.variables@) =~= Seq::<MapEntryView>::empty());
        }
        s
    }
}

/// The mathematical image of a user-defined function value.
pub struct FunctionView {
    pub parent: int,
    pub params: Seq<Seq<char>>,
    pub body: Reporter,
    pub body_span: Span,
}

/// The mathematical image of one entry of the function arena.
pub enum CallableView {
    Script(FunctionView),
    Native(NativeFn),
}

/// The mathematical image of the whole machine state: the two arenas, the
/// output log, and the module registry. The spec-level semantics in this
/// module is a pure function over this type.
pub struct HeapView {
    pub scopes: Seq<ScopeView>,
    pub funcs: Seq<CallableView>,
    pub output: Seq<Seq<char>>,
    pub modules: Seq<MapEntryView>,
}

/// A user-defined function value: the scope it closed over, its parameter
/// names, and its snapshotted body.
pub struct Function {
    pub parent: usize,
    pub parameters: Vec<String>,
    pub body: OwnedReporter,
}

impl Function {
    pub fn new(parent: usize, parameters: Vec<String>, body: OwnedReporter) -> (f: Function)
        ensures
            f.parent == parent,
            f.parameters == parameters,
            f.body.tree_spec() == body.tree_spec(),
            f.body.span_spec() == body.span_spec(),
    {
        Function { parent, parameters, body }
    }
}

impl Function {
    pub open spec fn vw(self) -> FunctionView {
        FunctionView {
            parent: self.parent as int,
            params: Seq::new(self.parameters@.len(), |i: int| self.parameters@[i]@),
            body: self.body.tree_spec(),
            body_span: self.body.span_spec(),
        }
    }
}

/// A callable stored in the function arena: a user-defined closure or one of
/// the built-in native functions.
pub enum Callable {
    Script(Function),
    Native(NativeFn),
}

impl Callable {
    pub open spec fn vw(self) -> CallableView {
        match self {
            Callable::Script(f) => CallableView::Script(f.vw()),
            Callable::Native(n) => CallableView::Native(n),
        }
    }
}

/// The interpreter's mutable state: the scope arena, the function arena, the
/// output the program has printed so far, and the module registry behind the
/// import hook. Values refer into the arenas by index.
pub struct Heap {
    pub scopes: Vec<Scope>,
    pub funcs: Vec<Callable>,
    pub output: Vec<String>,
    pub modules: Vec<MapEntry>,
}

/// The image of a heap with nothing in it.
pub open spec fn empty_heap() -> HeapView {
    HeapView {
        scopes: Seq::empty(),
        funcs: Seq::empty(),
        output: Seq::empty(),
        modules: Seq::empty(),
    }
}

/// The image of [`Heap::push_func`].
pub open spec fn push_func_view(h: HeapView, c: CallableView) -> HeapView {
    HeapView { funcs: h.funcs.push(c), ..h }
}

/// The image of [`Heap::scope_set`].
pub open spec fn scope_set_view(h: HeapView, s: int, name: Seq<char>, v: ValueView) -> HeapView {
    HeapView {
        scopes: h.scopes.update(s, ScopeView {
            parent: h.scopes[s].parent,
            vars: assoc_set(h.scopes[s].vars, name, v),
        }),
        ..h
    }
}

/// The image of [`Heap::register_module`].
pub open spec fn register_module_view(h: HeapView, name: Seq<char>, v: ValueView) -> HeapView {
    HeapView { modules: h.modules.push(MapEntryView { key: name, val: v }), ..h }
}

/// The image of [`Heap::push_scope`] with a fresh scope.
pub open spec fn push_scope_view(h: HeapView, parent: Option<int>) -> HeapView {
    HeapView {
        scopes: h.scopes.push(ScopeView { parent: parent, vars: Seq::empty() }),
        ..h
    }
}

/// Every arena index reachable from the value is in range.
pub open spec fn wf_val(v: ValueView, ns: int, nf: int) -> bool
    decreases v,
{
    match v {
        ValueView::Function(i) => 0 <= i < nf,
        ValueView::MapRef(i) => 0 <= i < ns,
        ValueView::Array(x) => forall|i: int| 0 <= i < x.len() ==> wf_val(#[trigger] x[i], ns, nf),
        ValueView::MapVal(es) => forall|i: int| 0 <= i < es.len() ==> wf_val(
            #[trigger] es[i].val,
            ns,
            nf,
        ),
        _ => true,
    }
}

pub open spec fn wf_entries(es: Seq<MapEntryView>, ns: int, nf: int) -> bool {
    forall|i: int| 0 <= i < es.len() ==> wf_val(#[trigger] es[i].val, ns, nf)
}

impl Heap {
    /// The mathematical image of the machine state.
    pub open spec fn vw(self) -> HeapView {
        HeapView {
            scopes: self.scopes_vw(),
            funcs: Seq::new(self.funcs@.len(), |i: int| self.funcs@[i].vw()),
            output: Seq::new(self.output@.len(), |i: int| self.output@[i]@),
            modules: entries_view(self.modules@),
        }
    }

    pub open spec fn scopes_vw(self) -> Seq<ScopeView> {
        Seq::new(self.scopes@.len(), |i: int| self.scopes@[i].vw())
    }

    pub open spec fn ns(self) -> int {
        self.scopes@.len() as int
    }

    pub open spec fn nf(self) -> int {
        self.funcs@.len() as int
    }

    pub open spec fn scope_at(self, s: int) -> ScopeView {
        self.scopes@[s].vw()
    }

    /// Every parent link and every value stored anywhere points into the
    /// arenas.
    pub open spec fn wf(self) -> bool {
        &&& (forall|i: int| 0 <= i < self.ns() ==> {
            &&& (#[trigger] self.scope_at(i)).parent matches Some(p) ==> 0 <= p < self.ns()
            &&& wf_entries(self.scope_at(i).vars, self.ns(), self.nf())
        })
        &&& (forall|i: int| 0 <= i < self.nf() ==> match #[trigger] self.funcs@[i] {
            Callable::Script(f) => f.parent < self.ns(),
            Callable::Native(_) => true,
        })
        &&& wf_entries(entries_view(self.modules@), self.ns(), self.nf())
    }

    /// The arenas only grow: every index that was valid stays valid.
    pub open spec fn extends(self, prev: Heap) -> bool {
        &&& prev.ns() <= self.ns()
        &&& prev.nf() <= self.nf()
    }

    /// Appends a scope to the arena, returning its index.
    pub fn push_scope(&mut self, s: Scope) -> (idx: usize)
        requires
            old(self).wf(),
            s.vw().parent matches Some(p) ==> 0 <= p < old(self).ns(),
            wf_entries(s.vw().vars, old(self).ns(), old(self).nf()),
        ensures
            final(self).wf(),
            final(self).extends(*old(self)),
            idx as int == old(self).ns(),
            final(self).ns() == old(self).ns() + 1,
            final(self).nf() == old(self).nf(),
            final(self).scope_at(idx as int) == s.vw(),
            forall|i: int| 0 <= i < old(self).ns() ==> final(self).scope_at(i)
                == old(self).scope_at(i),
            final(self).funcs@ == old(self).funcs@,
            final(self).output@ == old(self).output@,
            final(self).modules@ == old(self).modules@,
            final(self).vw() == (HeapView {
                scopes: old(self).vw().scopes.push(s.vw()),
                ..old(self).vw()
            }),
    {
        let idx = self.scopes.len();
        self.scopes.push(s);
        proof {
            assert forall|i: int| 0 <= i < self.ns() implies {
                &&& (#[trigger] self.scope_at(i)).parent matches Some(p) ==> 0 <= p < self.ns()
                &&& wf_entries(self.scope_at(i).vars, self.ns(), self.nf())
            } by {
                if i < old(self).ns() {
                    assert(old(self).scope_at(i).parent matches Some(p) ==> 0 <= p < old(
                        self,
                    ).ns());
                    lemma_wf_entries_grow(old(self).scope_at(i).vars, old(self).ns(), old(
                        self,
                    ).nf(), self.ns(), self.nf());
                } else {
                    lemma_wf_entries_grow(s.vw().vars, old(self).ns(), old(self).nf(), self.ns(),
                        self.nf());
                }
            }
            lemma_wf_entries_grow(entries_view(self.modules@), old(self).ns(), old(self).nf(),
                self.ns(), self.nf());
            assert(self.vw().scopes =~= old(self).vw().scopes.push(s.vw()));
            assert(self.vw().funcs =~= old(self).vw().funcs);
            assert(self.vw().output =~= old(self).vw().output);
        }
        idx
    }

    /// Appends a callable to the arena, returning its index.
    pub fn push_func(&mut self, c: Callable) -> (idx: usize)
        requires
            old(self).wf(),
            c matches Callable::Script(f) ==> f.parent < old(self).ns(),
        ensures
            final(self).wf(),
            final(self).extends(*old(self)),
            idx as int == old(self).nf(),
            final(self).nf() == old(self).nf() + 1,
            final(self).ns() == old(self).ns(),
            final(self).funcs@ == old(self).funcs@.push(c),
            forall|i: int| 0 <= i < old(self).ns() ==> final(self).scope_at(i)
                == old(self).scope_at(i),
            final(self).output@ == old(self).output@,
            final(self).modules@ == old(self).modules@,
            final(self).vw() == (HeapView {
                funcs: old(self).vw().funcs.push(c.vw()),
                ..old(self).vw()
            }),
    {
        let idx = self.funcs.len();
        self.funcs.push(c);
        proof {
            assert forall|i: int| 0 <= i < self.ns() implies {
                &&& (#[trigger] self.scope_at(i)).parent matches Some(p) ==> 0 <= p < self.ns()
                &&& wf_entries(self.scope_at(i).vars, self.ns(), self.nf())
            } by {
                assert(self.scope_at(i) == old(self).scope_at(i));
                lemma_wf_entries_grow(old(self).scope_at(i).vars, old(self).ns(), old(self).nf(),
                    self.ns(), self.nf());
            }
            lemma_wf_entries_grow(entries_view(self.modules@), old(self).ns(), old(self).nf(),
                self.ns(), self.nf());
            assert(self.vw().scopes =~= old(self).vw().scopes);
            assert(self.vw().funcs =~= old(self).vw().funcs.push(c.vw()));
            assert(self.vw().output =~= old(self).vw().output);
        }
        idx
    }

    /// Reads a binding of one scope, without consulting its parents: a
    /// variable reference already carries the hop count to the right scope.
    pub fn scope_read(&self, s: usize, name: &String) -> (r: Option<Value>)
        requires
            self.wf(),
            s < self.ns(),
        ensures
            match r {
                Option::Some(v) => lookup_view(self.scope_at(s as int).vars, name@)
                    == Option::Some(v.vw()) && wf_val(v.vw(), self.ns(), self.nf()),
                Option::None => lookup_view(self.scope_at(s as int).vars, name@) is None,
            },
    {
        let sc = &self.scopes[s];
        match crate::value::assoc_get(&sc.variables, name) {
            Option::Some(v) => {
                proof {
                    lemma_lookup_wf(self.scope_at(s as int).vars, name@, self.ns(), self.nf());
                }
                Option::Some(v.clone())
            },
            Option::None => Option::None,
        }
    }
}

/// A well-formed entry list stays well-formed when the arenas grow.
pub proof fn lemma_wf_val_grow(v: ValueView, ns: int, nf: int, ns2: int, nf2: int)
    requires
        wf_val(v, ns, nf),
        ns <= ns2,
        nf <= nf2,
    ensures
        wf_val(v, ns2, nf2),
    decreases v,
{
    match v {
        ValueView::Array(x) => {
            assert forall|i: int| 0 <= i < x.len() implies wf_val(#[trigger] x[i], ns2, nf2) by {
                lemma_wf_val_grow(x[i], ns, nf, ns2, nf2);
            }
        },
        ValueView::MapVal(es) => {
            assert forall|i: int| 0 <= i < es.len() implies wf_val(
                #[trigger] es[i].val,
                ns2,
                nf2,
            ) by {
                lemma_wf_val_grow(es[i].val, ns, nf, ns2, nf2);
            }
        },
        _ => {},
    }
}

pub proof fn lemma_wf_entries_grow(es: Seq<MapEntryView>, ns: int, nf: int, ns2: int, nf2: int)
    requires
        wf_entries(es, ns, nf),
        ns <= ns2,
        nf <= nf2,
    ensures
        wf_entries(es, ns2, nf2),
{
    assert forall|i: int| 0 <= i < es.len() implies wf_val(#[trigger] es[i].val, ns2, nf2) by {
        lemma_wf_val_grow(es[i].val, ns, nf, ns2, nf2);
    }
}

/// A value found in a well-formed entry list is well-formed.
pub proof fn lemma_lookup_wf(es: Seq<MapEntryView>, name: Seq<char>, ns: int, nf: int)
    requires
        wf_entries(es, ns, nf),
    ensures
        lookup_view(es, name) matches Some(v) ==> wf_val(v, ns, nf),
    decreases es.len(),
{
    if es.len() > 0 && !(es[0].key == name) {
        assert(forall|i: int| 0 <= i < es.drop_first().len() ==> #[trigger] es.drop_first()[i]
            == es[i + 1]);
        lemma_lookup_wf(es.drop_first(), name, ns, nf);
    }
}

/// Storing under an existing key replaces its value in place; a new key is
/// appended at the back.
pub open spec fn assoc_set(es: Seq<MapEntryView>, name: Seq<char>, v: ValueView) -> Seq<
    MapEntryView,
>
    decreases es.len(),
{
    if es.len() == 0 {
        seq![MapEntryView { key: name, val: v }]
    } else if es[0].key == name {
        seq![MapEntryView { key: name, val: v }] + es.drop_first()
    } else {
        seq![es[0]] + assoc_set(es.drop_first(), name, v)
    }
}

/// The law of scope mutation: after a store, the stored name reads back the
/// stored value and every other name reads exactly what it read before.
pub proof fn lemma_assoc_set(es: Seq<MapEntryView>, name: Seq<char>, v: ValueView, q: Seq<char>)
    ensures
        lookup_view(assoc_set(es, name, v), q) == if q == name {
            Option::Some(v)
        } else {
            lookup_view(es, q)
        },
    decreases es.len(),
{
    let out = assoc_set(es, name, v);
    if es.len() == 0 {
        assert(out.drop_first() =~= Seq::<MapEntryView>::empty());
    } else if es[0].key == name {
        assert(out.drop_first() =~= es.drop_first());
    } else {
        assert(out[0] == es[0]);
        assert(out.drop_first() =~= assoc_set(es.drop_first(), name, v));
        lemma_assoc_set(es.drop_first(), name, v, q);
    }
}

/// Storing well-formed values into a well-formed list keeps it well-formed.
pub proof fn lemma_assoc_set_wf(
    es: Seq<MapEntryView>,
    name: Seq<char>,
    v: ValueView,
    ns: int,
    nf: int,
)
    requires
        wf_entries(es, ns, nf),
        wf_val(v, ns, nf),
    ensures
        wf_entries(assoc_set(es, name, v), ns, nf),
    decreases es.len(),
{
    let out = assoc_set(es, name, v);
    if es.len() == 0 {
    } else if es[0].key == name {
    } else {
        assert(forall|i: int| 0 <= i < es.drop_first().len() ==> #[trigger] es.drop_first()[i]
            == es[i + 1]);
        lemma_assoc_set_wf(es.drop_first(), name, v, ns, nf);
        assert forall|i: int| 0 <= i < out.len() implies wf_val(#[trigger] out[i].val, ns, nf) by {
            if i > 0 {
                assert(out[i] == assoc_set(es.drop_first(), name, v)[i - 1]);
            }
        }
    }
}

impl Heap {
    /// Stores a binding in one scope: the single mutation gate of the value
    /// model. Only the named scope changes, and in it only the named key.
    pub fn scope_set(&mut self, s: usize, name: String, v: Value)
        requires
            old(self).wf(),
            s < old(self).ns(),
            wf_val(v.vw(), old(self).ns(), old(self).nf()),
        ensures
            final(self).wf(),
            final(self).extends(*old(self)),
            final(self).ns() == old(self).ns(),
            final(self).nf() == old(self).nf(),
            final(self).scope_at(s as int).vars == assoc_set(
                old(self).scope_at(s as int).vars,
                name@,
                v.vw(),
            ),
            final(self).scope_at(s as int).parent == old(self).scope_at(s as int).parent,
            forall|i: int| 0 <= i < old(self).ns() && i != s ==> final(self).scope_at(i)
                == old(self).scope_at(i),
            final(self).funcs@ == old(self).funcs@,
            final(self).output@ == old(self).output@,
            final(self).modules@ == old(self).modules@,
            final(self).vw() == (HeapView {
                scopes: old(self).vw().scopes.update(s as int, ScopeView {
                    parent: old(self).vw().scopes[s as int].parent,
                    vars: assoc_set(old(self).vw().scopes[s as int].vars, name@, v.vw()),
                }),
                ..old(self).vw()
            }),
    {
        let ghost oldvars = self.scope_at(s as int).vars;
        let sc = vstd::std_specs::vec::vec_index_mut(&mut self.scopes, s);
        entries_set(&mut sc.variables, name, v);
        proof {
            assert(final(sc).vw().vars == assoc_set(oldvars, name@, v.vw()));
            lemma_assoc_set_wf(oldvars, name@, v.vw(), old(self).ns(), old(self).nf());
            assert forall|i: int| 0 <= i < self.ns() implies {
                &&& (#[trigger] self.scope_at(i)).parent matches Some(p) ==> 0 <= p < self.ns()
                &&& wf_entries(self.scope_at(i).vars, self.ns(), self.nf())
            } by {
                if i != s {
                    assert(self.scope_at(i) == old(self).scope_at(i));
                }
            }
            assert(self.vw().scopes =~= old(self).vw().scopes.update(s as int, ScopeView {
                parent: old(self).vw().scopes[s as int].parent,
                vars: assoc_set(old(self).vw().scopes[s as int].vars, name@, v.vw()),
            }));
            assert(self.vw().funcs =~= old(self).vw().funcs);
            assert(self.vw().output =~= old(self).vw().output);
        }
    }
}

/// Replaces the value under `name` in place, or appends a new entry: the
/// executable form of [`assoc_set`].
pub fn entries_set(entries: &mut Vec<MapEntry>, name: String, v: Value)
    ensures
        entries_view(final(entries)@) == assoc_set(entries_view(old(entries)@), name@, v.vw()),
{
    proof {
        lemma_entries_view(entries@);
    }
    let ghost w = entries_view(entries@);
    let mut i: usize = 0;
    while i < entries.len()
        invariant
            i <= entries@.len(),
            entries@ == old(entries)@,
            w == entries_view(entries@),
            w.len() == entries@.len(),
            forall|j: int| 0 <= j < entries@.len() ==> w[j]
                == (MapEntryView { key: entries@[j].key@, val: entries@[j].val.vw() }),
            forall|j: int| 0 <= j < i ==> w[j].key != name@,
        decreases entries@.len() - i,
    {
        if string_eq(&entries[i].key, &name) {
            proof {
                lemma_assoc_set_found(w, i as int, name@, v.vw());
            }
            let ghost wi = i as int;
            entries[i] = MapEntry { key: name, val: v };
            proof {
                lemma_entries_view(entries@);
                assert(entries_view(entries@) =~= w.update(
                    wi,
                    MapEntryView { key: entries@[wi].key@, val: entries@[wi].val.vw() },
                ));
            }
            return;
        }
        i = i + 1;
    }
    entries.push(MapEntry { key: name, val: v });
    proof {
        lemma_assoc_set_fresh(w, name@, v.vw());
        lemma_entries_view(entries@);
        assert(entries_view(entries@) =~= w.push(
            MapEntryView { key: entries@[entries@.len() - 1].key@, val: entries@[entries@.len()
                - 1].val.vw() },
        ));
    }
}

/// If the first match for `name` is at `i`, storing rewrites exactly that
/// entry.
pub proof fn lemma_assoc_set_found(es: Seq<MapEntryView>, i: int, name: Seq<char>, v: ValueView)
    requires
        0 <= i < es.len(),
        es[i].key == name,
        forall|j: int| 0 <= j < i ==> es[j].key != name,
    ensures
        assoc_set(es, name, v) == es.update(i, MapEntryView { key: name, val: v }),
    decreases es.len(),
{
    if i == 0 {
        assert(assoc_set(es, name, v) =~= es.update(0, MapEntryView { key: name, val: v }));
    } else {
        assert(forall|j: int| 0 <= j < es.drop_first().len() ==> #[trigger] es.drop_first()[j]
            == es[j + 1]);
        lemma_assoc_set_found(es.drop_first(), i - 1, name, v);
        assert(assoc_set(es, name, v) =~= es.update(i, MapEntryView { key: name, val: v }));
    }
}

/// If no entry matches `name`, storing appends at the back.
pub proof fn lemma_assoc_set_fresh(es: Seq<MapEntryView>, name: Seq<char>, v: ValueView)
    requires
        forall|j: int| 0 <= j < es.len() ==> es[j].key != name,
    ensures
        assoc_set(es, name, v) == es.push(MapEntryView { key: name, val: v }),
    decreases es.len(),
{
    if es.len() == 0 {
        assert(assoc_set(es, name, v) =~= es.push(MapEntryView { key: name, val: v }));
    } else {
        assert(forall|j: int| 0 <= j < es.drop_first().len() ==> #[trigger] es.drop_first()[j]
            == es[j + 1]);
        lemma_assoc_set_fresh(es.drop_first(), name, v);
        assert(assoc_set(es, name, v) =~= es.push(MapEntryView { key: name, val: v }));
    }
}


/// The name `type_of` reports for a map-shaped value: the string under the
/// reserved metadata key if there is one, the plain tag otherwise.
pub open spec fn type_name_from(o: Option<ValueView>) -> Seq<char> {
    match o {
        Option::Some(ValueView::Str(s)) => s,
        Option::Some(_) => "map"@,
        Option::None => "map"@,
    }
}

/// The dynamic type name of a value: maps and map references may carry their
/// own name under the reserved metadata key; every other value reports its
/// primitive tag.
pub open spec fn type_of_spec(scopes: Seq<ScopeView>, v: ValueView) -> Seq<char> {
    match v {
        ValueView::MapVal(es) => type_name_from(lookup_view(es, crate::value::TYPE_NAME_KEY@)),
        ValueView::MapRef(i) => if 0 <= i < scopes.len() {
            type_name_from(lookup_view(scopes[i].vars, crate::value::TYPE_NAME_KEY@))
        } else {
            "map"@
        },
        _ => crate::value::primative_of_view(v),
    }
}

impl Value {
    /// The dynamic type name of this value.
    pub fn type_of(&self, heap: &Heap) -> (r: String)
        requires
            heap.wf(),
        ensures
            r@ == type_of_spec(heap.scopes_vw(), self.vw()),
    {
        match self {
            Value::MapVal(entries) => {
                let key = String::from_str(crate::value::TYPE_NAME_KEY);
                match crate::value::assoc_get(entries, &key) {
                    Option::Some(v) => match v {
                        Value::Str(s) => s.clone(),
                        _ => String::from_str("map"),
                    },
                    Option::None => String::from_str("map"),
                }
            },
            Value::MapRef(i) => {
                if *i < heap.scopes.len() {
                    let key = String::from_str(crate::value::TYPE_NAME_KEY);
                    match crate::value::assoc_get(&heap.scopes[*i].variables, &key) {
                        Option::Some(v) => match v {
                            Value::Str(s) => s.clone(),
                            _ => String::from_str("map"),
                        },
                        Option::None => String::from_str("map"),
                    }
                } else {
                    String::from_str("map")
                }
            },
            _ => {
                let t = self.primative_type();
                String::from_str(t)
            },
        }
    }
}


/// Walks `hops` parent links up from scope `s`.
pub open spec fn up_spec(scopes: Seq<ScopeView>, s: int, hops: int) -> Option<int>
    decreases hops,
{
    if hops <= 0 {
        Option::Some(s)
    } else {
        match scopes[s].parent {
            Option::Some(p) => up_spec(scopes, p, hops - 1),
            Option::None => Option::None,
        }
    }
}

/// Executable walk up the scope chain.
pub fn scope_up(heap: &Heap, s: usize, hops: usize) -> (r: Option<usize>)
    requires
        heap.wf(),
        s < heap.ns(),
    ensures
        match r {
            Option::Some(t) => up_spec(heap.scopes_vw(), s as int, hops as int) == Option::Some(
                t as int,
            ) && t < heap.ns(),
            Option::None => up_spec(heap.scopes_vw(), s as int, hops as int) is None,
        },
{
    let mut cur = s;
    let mut i: usize = 0;
    while i < hops
        invariant
            heap.wf(),
            cur < heap.ns(),
            i <= hops,
            up_spec(heap.scopes_vw(), s as int, hops as int) == up_spec(
                heap.scopes_vw(),
                cur as int,
                (hops - i) as int,
            ),
        decreases hops - i,
    {
        proof {
            assert(heap.scopes_vw()[cur as int] == heap.scope_at(cur as int));
        }
        match heap.scopes[cur].parent {
            Option::Some(p) => {
                cur = p;
            },
            Option::None => {
                return Option::None;
            },
        }
        i = i + 1;
    }
    Option::Some(cur)
}

/// Removing a name keeps every entry except the first one under that name.
pub open spec fn assoc_remove(es: Seq<MapEntryView>, name: Seq<char>) -> Seq<MapEntryView>
    decreases es.len(),
{
    if es.len() == 0 {
        es
    } else if es[0].key == name {
        es.drop_first()
    } else {
        seq![es[0]] + assoc_remove(es.drop_first(), name)
    }
}

pub proof fn lemma_assoc_remove_wf(es: Seq<MapEntryView>, name: Seq<char>, ns: int, nf: int)
    requires
        wf_entries(es, ns, nf),
    ensures
        wf_entries(assoc_remove(es, name), ns, nf),
    decreases es.len(),
{
    let out = assoc_remove(es, name);
    if es.len() == 0 {
    } else if es[0].key == name {
        assert(forall|i: int| 0 <= i < es.drop_first().len() ==> #[trigger] es.drop_first()[i]
            == es[i + 1]);
    } else {
        assert(forall|i: int| 0 <= i < es.drop_first().len() ==> #[trigger] es.drop_first()[i]
            == es[i + 1]);
        lemma_assoc_remove_wf(es.drop_first(), name, ns, nf);
        assert forall|i: int| 0 <= i < out.len() implies wf_val(#[trigger] out[i].val, ns, nf) by {
            if i > 0 {
                assert(out[i] == assoc_remove(es.drop_first(), name)[i - 1]);
            }
        }
    }
}

/// The law of eviction: after a removal the removed name reads as absent
/// when it was bound once, and every other name reads as before.
pub proof fn lemma_assoc_remove(es: Seq<MapEntryView>, name: Seq<char>, q: Seq<char>)
    ensures
        q != name ==> lookup_view(assoc_remove(es, name), q) == lookup_view(es, q),
    decreases es.len(),
{
    let out = assoc_remove(es, name);
    if es.len() == 0 {
    } else if es[0].key == name {
    } else {
        assert(out[0] == es[0]);
        assert(out.drop_first() =~= assoc_remove(es.drop_first(), name));
        lemma_assoc_remove(es.drop_first(), name, q);
    }
}

/// Executable removal of the first entry under `name`, if any.
pub fn entries_remove(entries: &mut Vec<MapEntry>, name: &String)
    ensures
        entries_view(final(entries)@) == assoc_remove(entries_view(old(entries)@), name@),
{
    proof {
        lemma_entries_view(entries@);
    }
    let ghost w = entries_view(entries@);
    let mut i: usize = 0;
    while i < entries.len()
        invariant
            i <= entries@.len(),
            entries@ == old(entries)@,
            w == entries_view(entries@),
            w.len() == entries@.len(),
            forall|j: int| 0 <= j < entries@.len() ==> w[j]
                == (MapEntryView { key: entries@[j].key@, val: entries@[j].val.vw() }),
            forall|j: int| 0 <= j < i ==> w[j].key != name@,
        decreases entries@.len() - i,
    {
        if string_eq(&entries[i].key, name) {
            proof {
                lemma_assoc_remove_at(w, i as int, name@);
            }
            let ghost wi = i as int;
            let _ = entries.remove(i);
            proof {
                lemma_entries_view(entries@);
                assert(entries_view(entries@) =~= w.remove(wi));
            }
            return;
        }
        i = i + 1;
    }
    proof {
        lemma_assoc_remove_absent(w, name@);
    }
}

/// If the first match for `name` sits at `i`, removal deletes exactly that
/// entry.
pub proof fn lemma_assoc_remove_at(es: Seq<MapEntryView>, i: int, name: Seq<char>)
    requires
        0 <= i < es.len(),
        es[i].key == name,
        forall|j: int| 0 <= j < i ==> es[j].key != name,
    ensures
        assoc_remove(es, name) == es.remove(i),
    decreases es.len(),
{
    if i == 0 {
        assert(assoc_remove(es, name) =~= es.remove(0));
    } else {
        assert(forall|j: int| 0 <= j < es.drop_first().len() ==> #[trigger] es.drop_first()[j]
            == es[j + 1]);
        lemma_assoc_remove_at(es.drop_first(), i - 1, name);
        assert(assoc_remove(es, name) =~= es.remove(i));
    }
}

/// If nothing matches `name`, removal changes nothing.
pub proof fn lemma_assoc_remove_absent(es: Seq<MapEntryView>, name: Seq<char>)
    requires
        forall|j: int| 0 <= j < es.len() ==> es[j].key != name,
    ensures
        assoc_remove(es, name) == es,
    decreases es.len(),
{
    if es.len() > 0 {
        assert(forall|j: int| 0 <= j < es.drop_first().len() ==> #[trigger] es.drop_first()[j]
            == es[j + 1]);
        lemma_assoc_remove_absent(es.drop_first(), name);
        assert(assoc_remove(es, name) =~= es);
    }
}

impl Heap {
    /// Evicts a binding from one scope.
    pub fn scope_remove(&mut self, s: usize, name: &String)
        requires
            old(self).wf(),
            s < old(self).ns(),
        ensures
            final(self).wf(),
            final(self).extends(*old(self)),
            final(self).ns() == old(self).ns(),
            final(self).nf() == old(self).nf(),
            final(self).scope_at(s as int).vars == assoc_remove(
                old(self).scope_at(s as int).vars,
                name@,
            ),
            final(self).scope_at(s as int).parent == old(self).scope_at(s as int).parent,
            forall|i: int| 0 <= i < old(self).ns() && i != s ==> final(self).scope_at(i)
                == old(self).scope_at(i),
            final(self).funcs@ == old(self).funcs@,
            final(self).output@ == old(self).output@,
            final(self).modules@ == old(self).modules@,
            final(self).vw() == (HeapView {
                scopes: old(self).vw().scopes.update(s as int, ScopeView {
                    parent: old(self).vw().scopes[s as int].parent,
                    vars: assoc_remove(old(self).vw().scopes[s as int].vars, name@),
                }),
                ..old(self).vw()
            }),
    {
        let ghost oldvars = self.scope_at(s as int).vars;
        let sc = vstd::std_specs::vec::vec_index_mut(&mut self.scopes, s);
        entries_remove(&mut sc.variables, name);
        proof {
            lemma_assoc_remove_wf(oldvars, name@, old(self).ns(), old(self).nf());
            assert forall|i: int| 0 <= i < self.ns() implies {
                &&& (#[trigger] self.scope_at(i)).parent matches Some(p) ==> 0 <= p < self.ns()
                &&& wf_entries(self.scope_at(i).vars, self.ns(), self.nf())
            } by {
                if i != s {
                    assert(self.scope_at(i) == old(self).scope_at(i));
                }
            }
            assert(self.vw().scopes =~= old(self).vw().scopes.update(s as int, ScopeView {
                parent: old(self).vw().scopes[s as int].parent,
                vars: assoc_remove(old(self).vw().scopes[s as int].vars, name@),
            }));
            assert(self.vw().funcs =~= old(self).vw().funcs);
            assert(self.vw().output =~= old(self).vw().output);
        }
    }
}

/// Every value of the sequence is well-formed.
pub open spec fn wf_vals(vs: Seq<ValueView>, ns: int, nf: int) -> bool {
    forall|i: int| 0 <= i < vs.len() ==> wf_val(#[trigger] vs[i], ns, nf)
}

pub proof fn lemma_wf_vals_grow(vs: Seq<ValueView>, ns: int, nf: int, ns2: int, nf2: int)
    requires
        wf_vals(vs, ns, nf),
        ns <= ns2,
        nf <= nf2,
    ensures
        wf_vals(vs, ns2, nf2),
{
    assert forall|i: int| 0 <= i < vs.len() implies wf_val(#[trigger] vs[i], ns2, nf2) by {
        lemma_wf_val_grow(vs[i], ns, nf, ns2, nf2);
    }
}

pub open spec fn no_property_spec(name: Seq<char>) -> Seq<char> {
    "No property '"@ + name + "'."@
}

pub fn no_property_msg(name: &String) -> (r: String)
    ensures
        r@ == no_property_spec(name@),
{
    let s = String::from_str("No property '");
    let s = s.concat(name.as_str());
    s.concat("'.")
}

pub open spec fn no_module_spec(name: Seq<char>) -> Seq<char> {
    "No module '"@ + name + "'."@
}

pub fn no_module_msg(name: &String) -> (r: String)
    ensures
        r@ == no_module_spec(name@),
{
    let s = String::from_str("No module '");
    let s = s.concat(name.as_str());
    s.concat("'.")
}

pub open spec fn iterator_err_spec(found: Seq<char>) -> Seq<char> {
    "Expected an iterator function, but instead got "@ + found
}

pub fn iterator_err_msg(found: &str) -> (r: String)
    ensures
        r@ == iterator_err_spec(found@),
{
    let s = String::from_str("Expected an iterator function, but instead got ");
    s.concat(found)
}


impl Heap {
    /// Replaces a native entry of the function arena, for built-ins that
    /// carry mutable state.
    pub fn set_native(&mut self, fidx: usize, n: NativeFn)
        requires
            old(self).wf(),
            fidx < old(self).nf(),
        ensures
            final(self).wf(),
            final(self).extends(*old(self)),
            final(self).ns() == old(self).ns(),
            final(self).nf() == old(self).nf(),
            final(self).funcs@ == old(self).funcs@.update(fidx as int, Callable::Native(n)),
            forall|i: int| 0 <= i < old(self).ns() ==> final(self).scope_at(i)
                == old(self).scope_at(i),
            final(self).output@ == old(self).output@,
            final(self).modules@ == old(self).modules@,
            final(self).vw() == (HeapView {
                funcs: old(self).vw().funcs.update(fidx as int, CallableView::Native(n)),
                ..old(self).vw()
            }),
    {
        self.funcs[fidx] = Callable::Native(n);
        proof {
            assert forall|i: int| 0 <= i < self.ns() implies {
                &&& (#[trigger] self.scope_at(i)).parent matches Some(p) ==> 0 <= p < self.ns()
                &&& wf_entries(self.scope_at(i).vars, self.ns(), self.nf())
            } by {
                assert(self.scope_at(i) == old(self).scope_at(i));
            }
            assert(self.vw().scopes =~= old(self).vw().scopes);
            assert(self.vw().funcs =~= old(self).vw().funcs.update(fidx as int,
                CallableView::Native(n)));
            assert(self.vw().output =~= old(self).vw().output);
        }
    }

    /// Registers a module value behind the import hook.
    pub fn register_module(&mut self, name: String, v: Value)
        requires
            old(self).wf(),
            wf_val(v.vw(), old(self).ns(), old(self).nf()),
        ensures
            final(self).wf(),
            final(self).extends(*old(self)),
            final(self).ns() == old(self).ns(),
            final(self).nf() == old(self).nf(),
            entries_view(final(self).modules@) == entries_view(old(self).modules@).push(
                MapEntryView { key: name@, val: v.vw() },
            ),
            forall|i: int| 0 <= i < old(self).ns() ==> final(self).scope_at(i)
                == old(self).scope_at(i),
            final(self).funcs@ == old(self).funcs@,
            final(self).output@ == old(self).output@,
            final(self).vw() == (HeapView {
                modules: old(self).vw().modules.push(MapEntryView { key: name@, val: v.vw() }),
                ..old(self).vw()
            }),
    {
        let ghost oldmods = entries_view(self.modules@);
        self.modules.push(MapEntry { key: name, val: v });
        proof {
            lemma_entries_view(self.modules@);
            lemma_entries_view(old(self).modules@);
            assert(entries_view(self.modules@) =~= oldmods.push(
                MapEntryView { key: name@, val: v.vw() },
            ));
            assert forall|i: int| 0 <= i < self.ns() implies {
                &&& (#[trigger] self.scope_at(i)).parent matches Some(p) ==> 0 <= p < self.ns()
                &&& wf_entries(self.scope_at(i).vars, self.ns(), self.nf())
            } by {
                assert(self.scope_at(i) == old(self).scope_at(i));
            }
            assert(self.vw().scopes =~= old(self).vw().scopes);
            assert(self.vw().funcs =~= old(self).vw().funcs);
            assert(self.vw().output =~= old(self).vw().output);
        }
    }
}


impl Heap {
    /// Appends one line or fragment to the program's output log.
    pub fn log_output(&mut self, s: String)
        requires
            old(self).wf(),
        ensures
            final(self).wf(),
            final(self).extends(*old(self)),
            final(self).ns() == old(self).ns(),
            final(self).nf() == old(self).nf(),
            final(self).output@ == old(self).output@.push(s),
            forall|i: int| 0 <= i < old(self).ns() ==> final(self).scope_at(i)
                == old(self).scope_at(i),
            final(self).funcs@ == old(self).funcs@,
            final(self).modules@ == old(self).modules@,
            final(self).vw() == (HeapView {
                output: old(self).vw().output.push(s@),
                ..old(self).vw()
            }),
    {
        self.output.push(s);
        proof {
            assert forall|i: int| 0 <= i < self.ns() implies {
                &&& (#[trigger] self.scope_at(i)).parent matches Some(p) ==> 0 <= p < self.ns()
                &&& wf_entries(self.scope_at(i).vars, self.ns(), self.nf())
            } by {
                assert(self.scope_at(i) == old(self).scope_at(i));
            }
            assert(self.vw().scopes =~= old(self).vw().scopes);
            assert(self.vw().funcs =~= old(self).vw().funcs);
            assert(self.vw().output =~= old(self).vw().output.push(s@));
        }
    }
}


/// Owned copies of a parameter-name list.
fn clone_strings(v: &Vec<String>) -> (r: Vec<String>)
    ensures
        r@.len() == v@.len(),
        forall|i: int| 0 <= i < v@.len() ==> r@[i]@ == v@[i]@,
{
    let mut out: Vec<String> = Vec::new();
    let mut i: usize = 0;
    while i < v.len()
        invariant
            i <= v@.len(),
            out@.len() == i,
            forall|j: int| 0 <= j < i ==> out@[j]@ == v@[j]@,
        decreases v@.len() - i,
    {
        out.push(v[i].clone());
        i = i + 1;
    }
    out
}

/// Runs an instruction list against `scope`, exactly as [`run_block_spec`]
/// states it: a `Return` short-circuits the remaining instructions and
/// decides the result; a list that executes no `Return` yields its own
/// scope as a map reference, so a block without a `return` evaluates to the
/// record of its bindings.
pub fn run_block(heap: &mut Heap, scope: usize, instructions: &Vec<Chunk<Instruction>>, fuel: u64)
    -> (r: Result<Value, Error>)
    requires
        old(heap).wf(),
        scope < old(heap).ns(),
    ensures
        final(heap).wf(),
        final(heap).extends(*old(heap)),
        r matches Ok(v) ==> wf_val(v.vw(), final(heap).ns(), final(heap).nf()),
        (forall|i: int| 0 <= i < instructions@.len() ==> !((#[trigger] instructions@[i].data)
            matches Instruction::Return(_))) ==> (r matches Ok(v) ==> v == Value::MapRef(scope)),
        ({
            let sr = run_block_spec(old(heap).vw(), scope as int, instructions@, fuel as nat);
            final(heap).vw() == sr.0 && match sr.1 {
                Result::Ok(v) => r matches Ok(rv) && rv.vw() == v,
                Result::Err(ms) => r matches Err(e) && e.message_view() == ms.0 && e.span_view()
                    == ms.1,
            }
        }),
    decreases fuel, 1int,
{
    proof {
        assert(instructions@.skip(0) =~= instructions@);
    }
    let mut i: usize = 0;
    while i < instructions.len()
        invariant
            heap.wf(),
            heap.extends(*old(heap)),
            scope < heap.ns(),
            i <= instructions@.len(),
            run_block_spec(old(heap).vw(), scope as int, instructions@, fuel as nat)
                == run_block_spec(heap.vw(), scope as int, instructions@.skip(i as int), fuel as nat),
        decreases instructions@.len() - i,
    {
        proof {
            assert(instructions@.skip(i as int).len() > 0);
            assert(instructions@.skip(i as int)[0] == instructions@[i as int]);
            assert(instructions@.skip(i as int).drop_first() =~= instructions@.skip(i + 1));
        }
        if fuel == 0 {
            return Err(Error::new(
                String::from_str("Evaluation budget exhausted."),
                instructions[i].span,
            ));
        }
        let sub = fuel - 1;
        match &instructions[i].data {
            Instruction::Assign { map, name, value } => {
                let mv = evaluate(heap, scope, &map.data, map.span, sub)?;
                let ghost h1 = *heap;
                let vv = evaluate(heap, scope, &value.data, value.span, sub)?;
                match mv {
                    Value::MapRef(idx) => {
                        heap.scope_set(idx, name.data.clone(), vv);
                    },
                    // storing into an owned map value would mutate a copy
                    // nobody else holds, so it is dropped
                    Value::MapVal(_) => {},
                    v => {
                        let found = v.type_of(heap);
                        return Err(Error::new(crate::ops::type_error_msg("map", found), map.span));
                    },
                }
            },
            Instruction::While { condition, body } => {
                run_while(heap, scope, condition, body, sub)?;
            },
            Instruction::For { name, iter, body } => {
                let iv = evaluate(heap, scope, &iter.data, iter.span, sub)?;
                match &iv {
                    Value::Function(fi) => {
                        run_for_fn(heap, scope, &name.data, *fi, &body.data, iter.span, sub)?;
                    },
                    Value::Array(items) => {
                        proof {
                            assert(iv.vw() == ValueView::Array(crate::value::vals_view(items@)));
                            assert(wf_vals(crate::value::vals_view(items@), heap.ns(),
                                heap.nf()));
                        }
                        run_for_arr(heap, scope, &name.data, items, 0, &body.data, iter.span,
                            sub)?;
                    },
                    v => {
                        let found = v.primative_type();
                        return Err(Error::new(iterator_err_msg(found), iter.span));
                    },
                }
            },
            Instruction::Return(value) => {
                let v = evaluate(heap, scope, &value.data, value.span, sub)?;
                return Ok(v);
            },
            Instruction::Void(rep) => {
                evaluate(heap, scope, rep, instructions[i].span, sub)?;
            },
        }
        i = i + 1;
    }
    proof {
        assert(instructions@.skip(i as int).len() == 0);
    }
    Ok(Value::MapRef(scope))
}

/// One run of a `while` loop, exactly as [`run_while_spec`] states it: the
/// condition is re-evaluated in the outer scope before each iteration and
/// must be Boolean; each iteration's body runs in a fresh child scope, so
/// bindings do not persist across iterations.
fn run_while(
    heap: &mut Heap,
    scope: usize,
    condition: &Chunk<Reporter>,
    body: &Chunk<Vec<Chunk<Instruction>>>,
    fuel: u64,
) -> (r: Result<(), Error>)
    requires
        old(heap).wf(),
        scope < old(heap).ns(),
    ensures
        final(heap).wf(),
        final(heap).extends(*old(heap)),
        ({
            let sr = run_while_spec(old(heap).vw(), scope as int, *condition, body.data@,
                fuel as nat);
            final(heap).vw() == sr.0 && match sr.1 {
                Result::Ok(_) => r is Ok,
                Result::Err(ms) => r matches Err(e) && e.message_view() == ms.0 && e.span_view()
                    == ms.1,
            }
        }),
    decreases fuel, 1int,
{
    if fuel == 0 {
        return Err(Error::new(
            String::from_str("Evaluation budget exhausted."),
            condition.span,
        ));
    }
    let cv = evaluate(heap, scope, &condition.data, condition.span, fuel - 1)?;
    match cv {
        Value::Bool(true) => {
            let child = heap.push_scope(Scope::new(Some(scope)));
            proof {
            }
            run_block(heap, child, &body.data, fuel - 1)?;
            run_while(heap, scope, condition, body, fuel - 1)
        },
        Value::Bool(false) => Ok(()),
        v => {
            let found = v.type_of(heap);
            Err(Error::new(crate::ops::type_error_msg("boolean", found), condition.span))
        },
    }
}

/// One run of a `for` loop over a pull-based iterator function, exactly as
/// [`run_for_fn_spec`] states it: the callee is called with no arguments
/// until it yields null. Each iteration binds the loop variable in a fresh
/// child scope and evicts it again afterward, so the binding is not visible
/// outside one iteration.
fn run_for_fn(
    heap: &mut Heap,
    scope: usize,
    name: &String,
    fi: usize,
    body: &Vec<Chunk<Instruction>>,
    iter_span: Span,
    fuel: u64,
) -> (r: Result<(), Error>)
    requires
        old(heap).wf(),
        scope < old(heap).ns(),
        fi < old(heap).nf(),
    ensures
        final(heap).wf(),
        final(heap).extends(*old(heap)),
        ({
            let sr = run_for_fn_spec(old(heap).vw(), scope as int, name@, fi as int, body@,
                iter_span, fuel as nat);
            final(heap).vw() == sr.0 && match sr.1 {
                Result::Ok(_) => r is Ok,
                Result::Err(ms) => r matches Err(e) && e.message_view() == ms.0 && e.span_view()
                    == ms.1,
            }
        }),
    decreases fuel, 1int,
{
    if fuel == 0 {
        return Err(Error::new(String::from_str("Evaluation budget exhausted."), iter_span));
    }
    let noargs: Vec<Value> = Vec::new();
    proof {
        assert(crate::value::vals_view(noargs@) =~= Seq::<ValueView>::empty());
    }
    let item = call_value(heap, fi, noargs, iter_span, fuel - 1)?;
    if matches!(&item, Value::Null) {
        proof {
            assert(item.vw() matches ValueView::Null);
        }
        return Ok(());
    }
    let ghost h1 = *heap;
    let child = heap.push_scope(Scope::new(Some(scope)));
    proof {
        lemma_wf_val_grow(item.vw(), h1.ns(), h1.nf(), heap.ns(), heap.nf());
    }
    heap.scope_set(child, name.clone(), item);
    run_block(heap, child, body, fuel - 1)?;
    heap.scope_remove(child, name);
    run_for_fn(heap, scope, name, fi, body, iter_span, fuel - 1)
}

/// One run of a `for` loop over an array, exactly as [`run_for_arr_spec`]
/// states it: an index cursor walks the items; a null item ends the loop
/// early, exactly as an exhausted iterator does.
fn run_for_arr(
    heap: &mut Heap,
    scope: usize,
    name: &String,
    items: &Vec<Value>,
    idx: usize,
    body: &Vec<Chunk<Instruction>>,
    iter_span: Span,
    fuel: u64,
) -> (r: Result<(), Error>)
    requires
        old(heap).wf(),
        scope < old(heap).ns(),
        wf_vals(crate::value::vals_view(items@), old(heap).ns(), old(heap).nf()),
    ensures
        final(heap).wf(),
        final(heap).extends(*old(heap)),
        ({
            let sr = run_for_arr_spec(old(heap).vw(), scope as int, name@,
                crate::value::vals_view(items@), idx as int, body@, iter_span, fuel as nat);
            final(heap).vw() == sr.0 && match sr.1 {
                Result::Ok(_) => r is Ok,
                Result::Err(ms) => r matches Err(e) && e.message_view() == ms.0 && e.span_view()
                    == ms.1,
            }
        }),
    decreases fuel, 1int,
{
    if fuel == 0 {
        return Err(Error::new(String::from_str("Evaluation budget exhausted."), iter_span));
    }
    proof {
        crate::value::lemma_vals_view(items@);
    }
    if idx >= items.len() {
        return Ok(());
    }
    proof {
        assert(crate::value::vals_view(items@)[idx as int] == items@[idx as int].vw());
    }
    let item = items[idx].clone();
    if matches!(&item, Value::Null) {
        proof {
            assert(crate::value::vals_view(items@)[idx as int] matches ValueView::Null);
        }
        return Ok(());
    }
    let child = heap.push_scope(Scope::new(Some(scope)));
    proof {
        lemma_wf_val_grow(item.vw(), old(heap).ns(), old(heap).nf(), heap.ns(), heap.nf());
    }
    heap.scope_set(child, name.clone(), item);
    run_block(heap, child, body, fuel - 1)?;
    heap.scope_remove(child, name);
    proof {
        lemma_wf_vals_grow(crate::value::vals_view(items@), old(heap).ns(), old(heap).nf(),
            heap.ns(), heap.nf());
    }
    run_for_arr(heap, scope, name, items, idx + 1, body, iter_span, fuel - 1)
}

/// Calls a function value, exactly as [`call_spec`] states it. A
/// user-defined function binds its arguments to its parameter names by
/// position in a fresh scope chained to the scope it closed over (lexical
/// scoping); a count mismatch is tolerated, leaving excess parameters
/// unbound and dropping excess arguments. A built-in runs its native
/// behavior, and its errors are re-bound to the call site.
pub fn call_value(heap: &mut Heap, fidx: usize, args: Vec<Value>, span: Span, fuel: u64) -> (r:
    Result<Value, Error>)
    requires
        old(heap).wf(),
        fidx < old(heap).nf(),
        wf_vals(crate::value::vals_view(args@), old(heap).ns(), old(heap).nf()),
    ensures
        final(heap).wf(),
        final(heap).extends(*old(heap)),
        r matches Ok(v) ==> wf_val(v.vw(), final(heap).ns(), final(heap).nf()),
        ({
            let sr = call_spec(old(heap).vw(), fidx as int, crate::value::vals_view(args@), span,
                fuel as nat);
            final(heap).vw() == sr.0 && match sr.1 {
                Result::Ok(v) => r matches Ok(rv) && rv.vw() == v,
                Result::Err(ms) => r matches Err(e) && e.message_view() == ms.0 && e.span_view()
                    == ms.1,
            }
        }),
    decreases fuel, 1int,
{
    if fuel == 0 {
        return Err(Error::new(String::from_str("Evaluation budget exhausted."), span));
    }
    proof {
        assert(old(heap).vw().funcs[fidx as int] == old(heap).funcs@[fidx as int].vw());
    }
    let info: Option<(usize, Vec<String>, OwnedReporter)> = match &heap.funcs[fidx] {
        Callable::Script(f) => Some((f.parent, clone_strings(&f.parameters), f.body.share())),
        Callable::Native(_) => None,
    };
    match info {
        None => {
            match crate::stdlib::call_native(heap, fidx, args, span) {
                Ok(v) => Ok(v),
                Err(e) => Err(e.with_span(span)),
            }
        },
        Some((parent, params, body)) => {
            let ghost fv = old(heap).vw().funcs[fidx as int]->Script_0;
            proof {
                assert(fv.parent == parent as int);
                assert(fv.params.len() == params@.len());
                assert(forall|j: int| 0 <= j < params@.len() ==> fv.params[j] == params@[j]@);
                assert(fv.body == body.tree_spec());
                assert(fv.body_span == body.span_spec());
            }
            let child = heap.push_scope(Scope::new(Some(parent)));
            let ghost h1v = heap.vw();
            proof {
                crate::value::lemma_vals_view(args@);
                assert(h1v == (HeapView {
                    scopes: old(heap).vw().scopes.push(ScopeView {
                        parent: Option::Some(fv.parent),
                        vars: Seq::<MapEntryView>::empty(),
                    }),
                    ..old(heap).vw()
                }));
            }
            let mut i: usize = 0;
            let n = if params.len() < args.len() {
                params.len()
            } else {
                args.len()
            };
            proof {
                assert(h1v.scopes.update(child as int, ScopeView {
                    parent: Option::Some(fv.parent),
                    vars: bind_vars_spec(fv.params, crate::value::vals_view(args@), 0),
                }) =~= h1v.scopes);
            }
            while i < n
                invariant
                    heap.wf(),
                    heap.extends(*old(heap)),
                    child < heap.ns(),
                    child as int == h1v.scopes.len() - 1,
                    i <= n,
                    n <= params@.len(),
                    n <= args@.len(),
                    fv.params.len() == params@.len(),
                    forall|j: int| 0 <= j < params@.len() ==> fv.params[j] == params@[j]@,
                    crate::value::vals_view(args@).len() == args@.len(),
                    forall|j: int| 0 <= j < args@.len() ==> crate::value::vals_view(args@)[j]
                        == args@[j].vw(),
                    wf_vals(crate::value::vals_view(args@), old(heap).ns(), old(heap).nf()),
                    heap.vw() == (HeapView {
                        scopes: h1v.scopes.update(child as int, ScopeView {
                            parent: Option::Some(fv.parent),
                            vars: bind_vars_spec(fv.params, crate::value::vals_view(args@),
                                i as int),
                        }),
                        ..h1v
                    }),
                decreases n - i,
            {
                let v = args[i].clone();
                proof {
                    assert(v.vw() == crate::value::vals_view(args@)[i as int]);
                    lemma_wf_val_grow(v.vw(), old(heap).ns(), old(heap).nf(), heap.ns(),
                        heap.nf());
                    assert(heap.vw().scopes[child as int].vars == bind_vars_spec(fv.params,
                        crate::value::vals_view(args@), i as int));
                }
                heap.scope_set(child, params[i].clone(), v);
                proof {
                    assert(heap.vw().scopes =~= h1v.scopes.update(child as int, ScopeView {
                        parent: Option::Some(fv.parent),
                        vars: bind_vars_spec(fv.params, crate::value::vals_view(args@), i + 1),
                    }));
                }
                i = i + 1;
            }
            evaluate(heap, child, body.borrow(), body.span(), fuel - 1)
        },
    }
}

/// Evaluates one reporter against `scope`, exactly as [`eval_spec`] states
/// it, yielding a value or the first failure, bound to the span of the
/// offending sub-expression.
pub fn evaluate(heap: &mut Heap, scope: usize, reporter: &Reporter, span: Span, fuel: u64) -> (r:
    Result<Value, Error>)
    requires
        old(heap).wf(),
        scope < old(heap).ns(),
    ensures
        final(heap).wf(),
        final(heap).extends(*old(heap)),
        r matches Ok(v) ==> wf_val(v.vw(), final(heap).ns(), final(heap).nf()),
        ({
            let sr = eval_spec(old(heap).vw(), scope as int, *reporter, span, fuel as nat);
            final(heap).vw() == sr.0 && match sr.1 {
                Result::Ok(v) => r matches Ok(rv) && rv.vw() == v,
                Result::Err(ms) => r matches Err(e) && e.message_view() == ms.0 && e.span_view()
                    == ms.1,
            }
        }),
    decreases fuel, 0int,
{
    if fuel == 0 {
        return Err(Error::new(String::from_str("Evaluation budget exhausted."), span));
    }
    let sub = fuel - 1;
    let ghost subn = sub as nat;
    match reporter {
        Reporter::Parent(h) => {
            match scope_up(heap, scope, *h) {
                Some(t) => Ok(Value::MapRef(t)),
                None => Err(Error::new(String::from_str("Failed to get parent scope"), span)),
            }
        },
        Reporter::Null => Ok(Value::Null),
        Reporter::ConstStr(s) => Ok(Value::Str(s.clone())),
        Reporter::ConstInt(i) => Ok(Value::Int(*i)),
        Reporter::ConstFloat(f) => Ok(Value::Float(*f)),
        Reporter::ConstBool(b) => Ok(Value::Bool(*b)),
        Reporter::Block(insts) => {
            let child = heap.push_scope(Scope::new(Some(scope)));
            proof {
            }
            run_block(heap, child, insts, sub)
        },
        Reporter::Array(items) => {
            proof {
                assert(args_compose(Seq::<ValueView>::empty(), eval_args_spec(heap.vw(),
                    scope as int, items.data@, subn)) == eval_args_spec(heap.vw(), scope as int,
                    items.data@, subn)) by {
                    let full = eval_args_spec(heap.vw(), scope as int, items.data@, subn);
                    if full.1 is Ok {
                        assert(Seq::<ValueView>::empty() + full.1->Ok_0 =~= full.1->Ok_0);
                    }
                }
                assert(items.data@.skip(0) =~= items.data@);
                assert(crate::value::vals_view(Seq::<Value>::empty()) =~= Seq::<
                    ValueView,
                >::empty());
            }
            let mut out: Vec<Value> = Vec::new();
            let mut i: usize = 0;
            while i < items.data.len()
                invariant
                    heap.wf(),
                    heap.extends(*old(heap)),
                    scope < heap.ns(),
                    i <= items.data@.len(),
                    fuel >= 1,
                    sub < fuel,
                    subn == sub as nat,
                    subn == (fuel - 1) as nat,
                    (*reporter) == Reporter::Array(*items),
                    wf_vals(crate::value::vals_view(out@), heap.ns(), heap.nf()),
                    eval_args_spec(old(heap).vw(), scope as int, items.data@, subn)
                        == args_compose(crate::value::vals_view(out@), eval_args_spec(heap.vw(),
                        scope as int, items.data@.skip(i as int), subn)),
                decreases items.data@.len() - i,
            {
                proof {
                    assert(items.data@.skip(i as int).len() > 0);
                    assert(items.data@.skip(i as int)[0] == items.data@[i as int]);
                    assert(items.data@.skip(i as int).drop_first() =~= items.data@.skip(i + 1));
                }
                let it = &items.data[i];
                let ghost h1 = *heap;
                let ghost prefix = crate::value::vals_view(out@);
                let v = evaluate(heap, scope, &it.data, it.span, sub)?;
                proof {
                    lemma_wf_vals_grow(crate::value::vals_view(out@), h1.ns(), h1.nf(),
                        heap.ns(), heap.nf());
                    crate::value::lemma_vals_view(out@);
                }
                let ghost o1 = out@;
                out.push(v);
                proof {
                    crate::value::lemma_vals_view(out@);
                    assert(crate::value::vals_view(out@) =~= prefix + seq![v.vw()]);
                    assert forall|j: int| 0 <= j < crate::value::vals_view(out@).len()
                        implies wf_val(
                        #[trigger] crate::value::vals_view(out@)[j],
                        heap.ns(),
                        heap.nf(),
                    ) by {
                        assert(crate::value::vals_view(out@)[j] == out@[j].vw());
                        if j < o1.len() {
                            assert(out@[j] == o1[j]);
                            assert(o1[j].vw() == crate::value::vals_view(o1)[j]);
                        } else {
                            assert(out@[j] == v);
                        }
                    }
                    let rest = eval_args_spec(heap.vw(), scope as int, items.data@.skip(i + 1),
                        subn);
                    assert(args_compose(prefix, args_compose(seq![v.vw()], rest))
                        == args_compose(prefix + seq![v.vw()], rest)) by {
                        if rest.1 is Ok {
                            assert(prefix + (seq![v.vw()] + rest.1->Ok_0) =~= (prefix
                                + seq![v.vw()]) + rest.1->Ok_0);
                        }
                    }
                }
                i = i + 1;
            }
            proof {
                assert(items.data@.skip(i as int).len() == 0);
                crate::value::lemma_vals_view(out@);
                let rest = eval_args_spec(heap.vw(), scope as int, items.data@.skip(i as int),
                    subn);
                assert(crate::value::vals_view(out@) + Seq::<ValueView>::empty()
                    =~= crate::value::vals_view(out@));
            }
            Ok(Value::Array(out))
        },
        Reporter::Function { parameters, body } => {
            let mut params: Vec<String> = Vec::new();
            let mut i: usize = 0;
            while i < parameters.len()
                invariant
                    i <= parameters@.len(),
                    params@.len() == i,
                    forall|j: int| 0 <= j < i ==> params@[j]@ == parameters@[j].data@,
                decreases parameters@.len() - i,
            {
                params.push(parameters[i].data.clone());
                i = i + 1;
            }
            let f = Function::new(scope, params, body.share());
            proof {
                assert(f.vw().params =~= Seq::new(parameters@.len(), |j: int|
                    parameters@[j].data@));
                assert(f.vw() == (FunctionView {
                    parent: scope as int,
                    params: Seq::new(parameters@.len(), |j: int| parameters@[j].data@),
                    body: body.tree_spec(),
                    body_span: body.span_spec(),
                }));
            }
            let idx = heap.push_func(Callable::Script(f));
            Ok(Value::Function(idx))
        },
        Reporter::Get { map, name } => {
            let mv = evaluate(heap, scope, &map.data, map.span, sub)?;
            get_property(heap, mv, &name.data, map.span, name.span)
        },
        Reporter::DynGet { map, attr } => {
            let av = evaluate(heap, scope, &attr.data, attr.span, sub)?;
            let aname = match av {
                Value::Str(s) => s,
                v => {
                    let found = v.type_of(heap);
                    return Err(Error::new(crate::ops::type_error_msg("string", found), attr.span));
                },
            };
            let mv = evaluate(heap, scope, &map.data, map.span, sub)?;
            get_property(heap, mv, &aname, map.span, attr.span)
        },
        Reporter::Call(func, args) => {
            let fv = evaluate(heap, scope, &func.data, func.span, sub)?;
            let fidx = match fv {
                Value::Function(i) => i,
                v => {
                    let found = v.type_of(heap);
                    return Err(Error::new(
                        crate::ops::type_error_msg("function", found),
                        func.span,
                    ));
                },
            };
            let ghost h1v = heap.vw();
            proof {
                assert(args_compose(Seq::<ValueView>::empty(), eval_args_spec(heap.vw(),
                    scope as int, args@, subn)) == eval_args_spec(heap.vw(), scope as int, args@,
                    subn)) by {
                    let full = eval_args_spec(heap.vw(), scope as int, args@, subn);
                    if full.1 is Ok {
                        assert(Seq::<ValueView>::empty() + full.1->Ok_0 =~= full.1->Ok_0);
                    }
                }
                assert(args@.skip(0) =~= args@);
                assert(crate::value::vals_view(Seq::<Value>::empty()) =~= Seq::<
                    ValueView,
                >::empty());
            }
            let mut vals: Vec<Value> = Vec::new();
            let mut i: usize = 0;
            while i < args.len()
                invariant
                    heap.wf(),
                    heap.extends(*old(heap)),
                    scope < heap.ns(),
                    fidx < heap.nf(),
                    i <= args@.len(),
                    fuel >= 1,
                    sub < fuel,
                    subn == sub as nat,
                    subn == (fuel - 1) as nat,
                    (*reporter) matches Reporter::Call(fc, ac) && fc == *func && ac == *args,
                    eval_spec(old(heap).vw(), scope as int, *func.data, func.span, subn) == (
                        h1v,
                        Result::<ValueView, (Seq<char>, Span)>::Ok(ValueView::Function(
                            fidx as int,
                        )),
                    ),
                    wf_vals(crate::value::vals_view(vals@), heap.ns(), heap.nf()),
                    eval_args_spec(h1v, scope as int, args@, subn) == args_compose(
                        crate::value::vals_view(vals@),
                        eval_args_spec(heap.vw(), scope as int, args@.skip(i as int), subn),
                    ),
                decreases args@.len() - i,
            {
                proof {
                    assert(args@.skip(i as int).len() > 0);
                    assert(args@.skip(i as int)[0] == args@[i as int]);
                    assert(args@.skip(i as int).drop_first() =~= args@.skip(i + 1));
                }
                let it = &args[i];
                let ghost h1 = *heap;
                let ghost prefix = crate::value::vals_view(vals@);
                let v = evaluate(heap, scope, &it.data, it.span, sub)?;
                proof {
                    lemma_wf_vals_grow(crate::value::vals_view(vals@), h1.ns(), h1.nf(),
                        heap.ns(), heap.nf());
                    crate::value::lemma_vals_view(vals@);
                }
                let ghost o1 = vals@;
                vals.push(v);
                proof {
                    crate::value::lemma_vals_view(vals@);
                    assert(crate::value::vals_view(vals@) =~= prefix + seq![v.vw()]);
                    assert forall|j: int| 0 <= j < crate::value::vals_view(vals@).len()
                        implies wf_val(
                        #[trigger] crate::value::vals_view(vals@)[j],
                        heap.ns(),
                        heap.nf(),
                    ) by {
                        assert(crate::value::vals_view(vals@)[j] == vals@[j].vw());
                        if j < o1.len() {
                            assert(vals@[j] == o1[j]);
                            assert(o1[j].vw() == crate::value::vals_view(o1)[j]);
                        } else {
                            assert(vals@[j] == v);
                        }
                    }
                    let rest = eval_args_spec(heap.vw(), scope as int, args@.skip(i + 1), subn);
                    assert(args_compose(prefix, args_compose(seq![v.vw()], rest))
                        == args_compose(prefix + seq![v.vw()], rest)) by {
                        if rest.1 is Ok {
                            assert(prefix + (seq![v.vw()] + rest.1->Ok_0) =~= (prefix
                                + seq![v.vw()]) + rest.1->Ok_0);
                        }
                    }
                }
                i = i + 1;
            }
            proof {
                assert(args@.skip(i as int).len() == 0);
                crate::value::lemma_vals_view(vals@);
                assert(crate::value::vals_view(vals@) + Seq::<ValueView>::empty()
                    =~= crate::value::vals_view(vals@));
            }
            call_value(heap, fidx, vals, span, sub)
        },
        Reporter::Import(name) => {
            proof {
                lemma_lookup_wf(entries_view(heap.modules@), name.data@, heap.ns(), heap.nf());
            }
            match crate::value::assoc_get(&heap.modules, &name.data) {
                Some(v) => Ok(v.clone()),
                None => Err(Error::new(no_module_msg(&name.data), name.span)),
            }
        },
        Reporter::If { blocks, else_block } => {
            let ghost elsv: Option<(Reporter, Span)> = match else_block {
                Option::Some(b) => Option::Some((*b.data, b.span)),
                Option::None => Option::None,
            };
            proof {
                assert(blocks@.skip(0) =~= blocks@);
            }
            let mut i: usize = 0;
            while i < blocks.len()
                invariant
                    heap.wf(),
                    heap.extends(*old(heap)),
                    scope < heap.ns(),
                    i <= blocks@.len(),
                    fuel >= 1,
                    sub < fuel,
                    subn == sub as nat,
                    subn == (fuel - 1) as nat,
                    (*reporter) matches Reporter::If { blocks: bs, else_block: eb } && bs == *blocks
                        && eb == *else_block,
                    elsv == match *else_block {
                        Option::Some(b) => Option::Some((*b.data, b.span)),
                        Option::None => Option::<(Reporter, Span)>::None,
                    },
                    if_chain_spec(old(heap).vw(), scope as int, blocks@, elsv, subn)
                        == if_chain_spec(heap.vw(), scope as int, blocks@.skip(i as int), elsv,
                        subn),
                decreases blocks@.len() - i,
            {
                proof {
                    assert(blocks@.skip(i as int).len() > 0);
                    assert(blocks@.skip(i as int)[0] == blocks@[i as int]);
                    assert(blocks@.skip(i as int).drop_first() =~= blocks@.skip(i + 1));
                }
                let pair = &blocks[i];
                let cv = evaluate(heap, scope, &pair.0.data, pair.0.span, sub)?;
                match cv {
                    Value::Bool(true) => {
                        return evaluate(heap, scope, &pair.1.data, pair.1.span, sub);
                    },
                    Value::Bool(false) => {},
                    v => {
                        let found = v.type_of(heap);
                        return Err(Error::new(
                            crate::ops::type_error_msg("boolean", found),
                            pair.0.span,
                        ));
                    },
                }
                i = i + 1;
            }
            proof {
                assert(blocks@.skip(i as int).len() == 0);
            }
            match else_block {
                Some(b) => evaluate(heap, scope, &b.data, b.span, sub),
                None => Ok(Value::Null),
            }
        },
        Reporter::Add { a, b } => {
            eval_binop(heap, scope, BinNode::Arith(crate::ops::ArithOp::Add), a, b, sub)
        },
        Reporter::Subtract { a, b } => {
            eval_binop(heap, scope, BinNode::Arith(crate::ops::ArithOp::Subtract), a, b, sub)
        },
        Reporter::Multiply { a, b } => {
            eval_binop(heap, scope, BinNode::Arith(crate::ops::ArithOp::Multiply), a, b, sub)
        },
        Reporter::Divide { a, b } => {
            eval_binop(heap, scope, BinNode::Arith(crate::ops::ArithOp::Divide), a, b, sub)
        },
        Reporter::Exponent { a, b } => eval_binop(heap, scope, BinNode::Exponent, a, b, sub),
        Reporter::Concat { a, b } => eval_binop(heap, scope, BinNode::Concat, a, b, sub),
        Reporter::And { a, b } => eval_binop(heap, scope, BinNode::Logic(true), a, b, sub),
        Reporter::Or { a, b } => eval_binop(heap, scope, BinNode::Logic(false), a, b, sub),
        Reporter::Equality { a, b } => eval_binop(heap, scope, BinNode::Equality, a, b, sub),
        Reporter::Inequality { a, b, op } => eval_binop(heap, scope, BinNode::Compare(op.data), a,
            b, sub),
        Reporter::Not(x) => {
            let v = evaluate(heap, scope, &x.data, x.span, sub)?;
            crate::ops::not_value(heap, v, x.span)
        },
        Reporter::Negative(x) => {
            let v = evaluate(heap, scope, &x.data, x.span, sub)?;
            crate::ops::negative_value(heap, v, x.span)
        },
    }
}

/// One binary operator node, exactly as [`bin_node_spec`] states it: the
/// left operand is evaluated first and must have the kind the operator
/// expects before the right operand is evaluated at all.
fn eval_binop(
    heap: &mut Heap,
    scope: usize,
    k: BinNode,
    a: &Chunk<Box<Reporter>>,
    b: &Chunk<Box<Reporter>>,
    fuel: u64,
) -> (r: Result<Value, Error>)
    requires
        old(heap).wf(),
        scope < old(heap).ns(),
    ensures
        final(heap).wf(),
        final(heap).extends(*old(heap)),
        r matches Ok(v) ==> wf_val(v.vw(), final(heap).ns(), final(heap).nf()),
        ({
            let sr = bin_node_spec(old(heap).vw(), scope as int, k, *a, *b, fuel as nat);
            final(heap).vw() == sr.0 && match sr.1 {
                Result::Ok(v) => r matches Ok(rv) && rv.vw() == v,
                Result::Err(ms) => r matches Err(e) && e.message_view() == ms.0 && e.span_view()
                    == ms.1,
            }
        }),
    decreases fuel, 1int,
{
    let av = evaluate(heap, scope, &a.data, a.span, fuel)?;
    let guard_ok = match k {
        BinNode::Arith(_) | BinNode::Exponent | BinNode::Compare(_) => matches!(
            &av,
            Value::Int(_) | Value::Float(_),
        ),
        BinNode::Concat => matches!(&av, Value::Str(_)),
        BinNode::Logic(_) => matches!(&av, Value::Bool(_)),
        BinNode::Equality => true,
    };
    if !guard_ok {
        let expected: &'static str = match k {
            BinNode::Arith(_) | BinNode::Exponent | BinNode::Compare(_) => "number",
            BinNode::Concat => "string",
            BinNode::Logic(_) => "boolean",
            BinNode::Equality => "",
        };
        proof {
            assert(!binop_guard_ok(k, av.vw()));
            assert(bin_guard(k) == expected@);
        }
        let found = av.type_of(heap);
        return Err(Error::new(crate::ops::type_error_msg(expected, found), a.span));
    }
    proof {
        assert(binop_guard_ok(k, av.vw()));
    }
    let bv = evaluate(heap, scope, &b.data, b.span, fuel)?;
    match k {
        BinNode::Arith(op) => crate::ops::arith(op, heap, av, bv, a.span, b.span),
        BinNode::Exponent => crate::ops::exponent(heap, av, bv, a.span, b.span),
        BinNode::Concat => crate::ops::concat_values(heap, av, bv, a.span, b.span),
        BinNode::Logic(is_and) => crate::ops::logic(is_and, heap, av, bv, a.span, b.span),
        BinNode::Compare(cmp) => crate::ops::compare(cmp, heap, av, bv, a.span, b.span),
        BinNode::Equality => Ok(Value::Bool(crate::value::values_equal(&av, &bv))),
    }
}

/// Compiles a parsed program against the prelude's names and executes its
/// instructions in a fresh scope chained to the runtime prelude, returning
/// the final machine state (for its output log) beside the result. A
/// compile failure passes through as the one structural error; otherwise
/// the program's lowering is executed by [`run_block_spec`] from the
/// freshly built registry state.
pub fn run(program: &crate::ast::Block, span: Span, fuel: u64) -> (out: (Heap, Result<
    Value,
    Error,
>))
    ensures
        out.0.wf(),
        !crate::compiler::stmts_compile(program.body@) ==> (out.1 matches Err(e)
            && e.message_view() == "Only variables and properties can be assigned to."@),
        crate::compiler::stmts_compile(program.body@) ==> exists|
            c: Chunk<Vec<Chunk<Instruction>>>,
        |
            {
                &&& #[trigger] crate::compiler::stmts_lower_to(
                    program.body@,
                    seq![crate::compiler::prelude_names()].push(Seq::<Seq<char>>::empty()),
                    c.data@,
                )
                &&& ({
                    let h0 = crate::stdlib::registry_built(empty_heap());
                    let sr = run_block_spec(push_scope_view(h0, Option::Some(
                        h0.scopes.len() - 1,
                    )), h0.scopes.len() as int, c.data@, fuel as nat);
                    out.0.vw() == sr.0 && match sr.1 {
                        Result::Ok(v) => out.1 matches Ok(rv) && rv.vw() == v,
                        Result::Err(ms) => out.1 matches Err(e) && e.message_view() == ms.0
                            && e.span_view() == ms.1,
                    }
                })
            },
{
    let mut scopes = crate::compiler::CompilerScope::from_prelude();
    let mut heap = Heap {
        scopes: Vec::new(),
        funcs: Vec::new(),
        output: Vec::new(),
        modules: Vec::new(),
    };
    proof {
        assert(entries_view(heap.modules@) =~= Seq::<MapEntryView>::empty());
        assert(heap.wf());
    }
    let compiled = match program.compile(span, &mut scopes) {
        Ok(c) => c,
        Err(e) => {
            return (heap, Err(e));
        },
    };
    proof {
        assert(heap.vw().scopes =~= empty_heap().scopes);
        assert(heap.vw().funcs =~= empty_heap().funcs);
        assert(heap.vw().output =~= empty_heap().output);
        assert(heap.vw().modules =~= empty_heap().modules);
        assert(heap.vw() == empty_heap());
    }
    let prelude = crate::stdlib::init_registry(&mut heap);
    let ghost h0 = heap.vw();
    proof {
        assert(h0 == crate::stdlib::registry_built(empty_heap()));
        assert(h0.scopes.len() == heap.ns());
        assert(prelude as int == h0.scopes.len() - 1);
    }
    let scope = heap.push_scope(Scope::new(Some(prelude)));
    proof {
        assert(heap.vw() == push_scope_view(h0, Option::Some(prelude as int)));
    }
    let r = run_block(&mut heap, scope, &compiled.data, fuel);
    proof {
        assert(crate::compiler::stmts_lower_to(
            program.body@,
            seq![crate::compiler::prelude_names()].push(Seq::<Seq<char>>::empty()),
            compiled.data@,
        ));
        let sr = run_block_spec(push_scope_view(h0, Option::Some(prelude as int)),
            h0.scopes.len() as int, compiled.data@, fuel as nat);
        assert(heap.vw() == sr.0);
    }
    (heap, r)
}


/// What property access returns, for every receiver value: the bound value
/// out of an owned map or out of the referenced scope; a missing name is a
/// lookup error citing the property name; any non-map receiver is a type
/// error naming `map`. Success happens exactly when the receiver is a map
/// and the name is bound.
pub open spec fn get_property_spec(
    scopes: Seq<ScopeView>,
    mv: ValueView,
    name: Seq<char>,
    map_span: Span,
    name_span: Span,
) -> Result<ValueView, (Seq<char>, Span)> {
    match mv {
        ValueView::MapVal(es) => match lookup_view(es, name) {
            Option::Some(v) => Result::Ok(v),
            Option::None => Result::Err((no_property_spec(name), name_span)),
        },
        ValueView::MapRef(i) => if 0 <= i < scopes.len() {
            match lookup_view(scopes[i].vars, name) {
                Option::Some(v) => Result::Ok(v),
                Option::None => Result::Err((no_property_spec(name), name_span)),
            }
        } else {
            Result::Err((no_property_spec(name), name_span))
        },
        _ => Result::Err((
            crate::ops::type_error_spec("map"@, type_of_spec(scopes, mv)),
            map_span,
        )),
    }
}

/// Executable property access, exactly as [`get_property_spec`] states it.
pub fn get_property(heap: &Heap, mv: Value, name: &String, map_span: Span, name_span: Span) -> (r:
    Result<Value, Error>)
    requires
        heap.wf(),
        wf_val(mv.vw(), heap.ns(), heap.nf()),
    ensures
        match get_property_spec(heap.scopes_vw(), mv.vw(), name@, map_span, name_span) {
            Result::Ok(v) => r matches Ok(rv) && rv.vw() == v && wf_val(v, heap.ns(), heap.nf()),
            Result::Err(ms) => r matches Err(e) && e.message_view() == ms.0 && e.span_view()
                == ms.1,
        },
{
    match mv {
        Value::MapVal(entries) => {
            proof {
                assert(wf_entries(entries_view(entries@), heap.ns(), heap.nf()));
                lemma_lookup_wf(entries_view(entries@), name@, heap.ns(), heap.nf());
            }
            match crate::value::assoc_get(&entries, name) {
                Option::Some(v) => Ok(v.clone()),
                Option::None => Err(Error::new(no_property_msg(name), name_span)),
            }
        },
        Value::MapRef(idx) => {
            match heap.scope_read(idx, name) {
                Option::Some(v) => Ok(v),
                Option::None => Err(Error::new(no_property_msg(name), name_span)),
            }
        },
        v => {
            let found = v.type_of(heap);
            Err(Error::new(crate::ops::type_error_msg("map", found), map_span))
        },
    }
}


/// The message of an exhausted step budget.
pub open spec fn budget_spec() -> Seq<char> {
    "Evaluation budget exhausted."@
}

/// The message of a parent reference that walks past the outermost scope.
pub open spec fn no_parent_spec() -> Seq<char> {
    "Failed to get parent scope"@
}

/// The bindings of a fresh call scope: the first `n` arguments stored under
/// the first `n` parameter names, in order.
pub open spec fn bind_vars_spec(params: Seq<Seq<char>>, args: Seq<ValueView>, n: int) -> Seq<
    MapEntryView,
>
    decreases n,
{
    if n <= 0 {
        Seq::empty()
    } else {
        assoc_set(bind_vars_spec(params, args, n - 1), params[n - 1], args[n - 1])
    }
}

/// What one built-in returns and how it changes the machine: the printing
/// built-ins append to the output log, the range constructor and cursor
/// create or step an arena entry, and the rest are pure queries. A missing
/// argument or a wrongly-typed one is an error naming the expected kind.
pub open spec fn native_spec(
    h: HeapView,
    fidx: int,
    n: NativeFn,
    args: Seq<ValueView>,
    span: Span,
) -> (HeapView, Result<ValueView, (Seq<char>, Span)>) {
    match n {
        NativeFn::Println => if args.len() < 1 {
            (h, Result::Err(("This function expected more arguments."@, span)))
        } else {
            match args[0] {
                ValueView::Str(s) => (
                    HeapView { output: h.output.push(s + "\n"@), ..h },
                    Result::Ok(ValueView::Null),
                ),
                v => (h, Result::Err((type_error_spec("string"@, type_of_spec(h.scopes, v)), span))),
            }
        },
        NativeFn::Print => if args.len() < 1 {
            (h, Result::Err(("This function expected more arguments."@, span)))
        } else {
            match args[0] {
                ValueView::Str(s) => (
                    HeapView { output: h.output.push(s), ..h },
                    Result::Ok(ValueView::Null),
                ),
                v => (h, Result::Err((type_error_spec("string"@, type_of_spec(h.scopes, v)), span))),
            }
        },
        NativeFn::MakeRange => if args.len() < 2 {
            (h, Result::Err(("This function expected more arguments."@, span)))
        } else {
            match (args[0], args[1]) {
                (ValueView::Int(start), ValueView::Int(end)) => (
                    HeapView {
                        funcs: h.funcs.push(CallableView::Native(NativeFn::Iterate(
                            Range { idx: start, end: end },
                        ))),
                        ..h
                    },
                    Result::Ok(ValueView::Function(h.funcs.len() as int)),
                ),
                (ValueView::Int(_), v) => (
                    h,
                    Result::Err((type_error_spec("int"@, type_of_spec(h.scopes, v)), span)),
                ),
                (v, _) => (
                    h,
                    Result::Err((type_error_spec("int"@, type_of_spec(h.scopes, v)), span)),
                ),
            }
        },
        NativeFn::Iterate(rg) => if rg.idx < rg.end {
            (
                HeapView {
                    funcs: h.funcs.update(fidx, CallableView::Native(NativeFn::Iterate(
                        Range { idx: (rg.idx + 1) as i32, end: rg.end },
                    ))),
                    ..h
                },
                Result::Ok(ValueView::Int(rg.idx)),
            )
        } else {
            (
                HeapView {
                    funcs: h.funcs.update(fidx, CallableView::Native(NativeFn::Iterate(rg))),
                    ..h
                },
                Result::Ok(ValueView::Null),
            )
        },
        NativeFn::IntToStr => if args.len() < 1 {
            (h, Result::Err(("This function expected more arguments."@, span)))
        } else {
            match args[0] {
                ValueView::Int(i) => (h, Result::Ok(ValueView::Str(crate::stdlib::int_str_spec(
                    i as int,
                )))),
                v => (h, Result::Err((type_error_spec("int"@, type_of_spec(h.scopes, v)), span))),
            }
        },
        NativeFn::MapKeys => if args.len() < 1 {
            (h, Result::Err(("This function expected more arguments."@, span)))
        } else {
            match args[0] {
                ValueView::MapRef(i) => if 0 <= i < h.scopes.len() {
                    (
                        h,
                        Result::Ok(ValueView::Array(Seq::new(
                            h.scopes[i].vars.len(),
                            |j: int| ValueView::Str(h.scopes[i].vars[j].key),
                        ))),
                    )
                } else {
                    (h, Result::Ok(ValueView::Array(Seq::empty())))
                },
                v => (h, Result::Err((type_error_spec("map"@, type_of_spec(h.scopes, v)), span))),
            }
        },
        NativeFn::MapHas => if args.len() < 2 {
            (h, Result::Err(("This function expected more arguments."@, span)))
        } else {
            match (args[0], args[1]) {
                (ValueView::MapRef(i), ValueView::Str(nm)) => if 0 <= i < h.scopes.len() {
                    (h, Result::Ok(ValueView::Bool(lookup_view(h.scopes[i].vars, nm) is Some)))
                } else {
                    (h, Result::Ok(ValueView::Bool(false)))
                },
                (ValueView::MapRef(_), v) => (
                    h,
                    Result::Err((type_error_spec("string"@, type_of_spec(h.scopes, v)), span)),
                ),
                (v, _) => (
                    h,
                    Result::Err((type_error_spec("map"@, type_of_spec(h.scopes, v)), span)),
                ),
            }
        },
        NativeFn::TypeOf => if args.len() < 1 {
            (h, Result::Err(("This function expected more arguments."@, span)))
        } else {
            (h, Result::Ok(ValueView::Str(type_of_spec(h.scopes, args[0]))))
        },
        NativeFn::TypeAssert => if args.len() < 2 {
            (h, Result::Err(("This function expected more arguments."@, span)))
        } else {
            match args[1] {
                ValueView::Str(expected) => if type_of_spec(h.scopes, args[0]) != expected {
                    (
                        h,
                        Result::Err((
                            type_error_spec(expected, type_of_spec(h.scopes, args[0])),
                            Span::zero_spec(),
                        )),
                    )
                } else {
                    (h, Result::Ok(ValueView::Null))
                },
                v => (
                    h,
                    Result::Err((type_error_spec("string"@, type_of_spec(h.scopes, v)), span)),
                ),
            }
        },
    }
}

/// What calling a function value produces. A user-defined function runs its
/// snapshotted body in a fresh scope chained to the scope it closed over
/// (lexical scoping), with positional, truncating argument binding; a
/// built-in runs [`native_spec`], and its errors are re-bound to the call
/// site.
pub open spec fn call_spec(h: HeapView, fidx: int, args: Seq<ValueView>, span: Span, fuel: nat)
    -> (HeapView, Result<ValueView, (Seq<char>, Span)>)
    decreases fuel, 1int, 0int,
{
    if fuel == 0 {
        (h, Result::Err((budget_spec(), span)))
    } else {
        match h.funcs[fidx] {
            CallableView::Script(fv) => {
                let child = h.scopes.len() as int;
                let h1 = HeapView {
                    scopes: h.scopes.push(ScopeView {
                        parent: Option::Some(fv.parent),
                        vars: Seq::empty(),
                    }),
                    ..h
                };
                let n = if fv.params.len() < args.len() {
                    fv.params.len() as int
                } else {
                    args.len() as int
                };
                let h2 = HeapView {
                    scopes: h1.scopes.update(child, ScopeView {
                        parent: Option::Some(fv.parent),
                        vars: bind_vars_spec(fv.params, args, n),
                    }),
                    ..h1
                };
                eval_spec(h2, child, fv.body, fv.body_span, (fuel - 1) as nat)
            },
            CallableView::Native(n) => {
                let (h1, r0) = native_spec(h, fidx, n, args, span);
                (
                    h1,
                    match r0 {
                        Result::Ok(v) => Result::Ok(v),
                        Result::Err(ms) => Result::Err((ms.0, span)),
                    },
                )
            },
        }
    }
}

/// Prefixes already-evaluated values onto the rest of a list evaluation.
pub open spec fn args_compose(
    prefix: Seq<ValueView>,
    rest: (HeapView, Result<Seq<ValueView>, (Seq<char>, Span)>),
) -> (HeapView, Result<Seq<ValueView>, (Seq<char>, Span)>) {
    match rest.1 {
        Result::Ok(vs) => (rest.0, Result::Ok(prefix + vs)),
        Result::Err(e) => (rest.0, Result::Err(e)),
    }
}

/// The values of a list of argument or element reporters, evaluated left to
/// right; the first failure stops the list.
pub open spec fn eval_args_spec(
    h: HeapView,
    scope: int,
    items: Seq<Chunk<Reporter>>,
    fuel: nat,
) -> (HeapView, Result<Seq<ValueView>, (Seq<char>, Span)>)
    decreases fuel, 1int, items.len(),
{
    if items.len() == 0 {
        (h, Result::Ok(Seq::empty()))
    } else {
        let (h1, r0) = eval_spec(h, scope, items[0].data, items[0].span, fuel);
        match r0 {
            Result::Err(e) => (h1, Result::Err(e)),
            Result::Ok(v) => {
                let (h2, rr) = eval_args_spec(h1, scope, items.drop_first(), fuel);
                (
                    h2,
                    match rr {
                        Result::Ok(rest) => Result::Ok(seq![v] + rest),
                        Result::Err(e) => Result::Err(e),
                    },
                )
            },
        }
    }
}

/// A conditional chain: conditions are evaluated lazily, left to right, and
/// each one actually evaluated must be Boolean; the first true one selects
/// its branch, and with no match the else branch runs, or the result is
/// null.
pub open spec fn if_chain_spec(
    h: HeapView,
    scope: int,
    blocks: Seq<(Chunk<Reporter>, Chunk<Reporter>)>,
    els: Option<(Reporter, Span)>,
    fuel: nat,
) -> (HeapView, Result<ValueView, (Seq<char>, Span)>)
    decreases fuel, 1int, blocks.len(),
{
    if blocks.len() == 0 {
        match els {
            Option::Some(b) => eval_spec(h, scope, b.0, b.1, fuel),
            Option::None => (h, Result::Ok(ValueView::Null)),
        }
    } else {
        let (h1, rc) = eval_spec(h, scope, blocks[0].0.data, blocks[0].0.span, fuel);
        match rc {
            Result::Err(e) => (h1, Result::Err(e)),
            Result::Ok(cv) => match cv {
                ValueView::Bool(true) => eval_spec(
                    h1,
                    scope,
                    blocks[0].1.data,
                    blocks[0].1.span,
                    fuel,
                ),
                ValueView::Bool(false) => if_chain_spec(h1, scope, blocks.drop_first(), els, fuel),
                v => (
                    h1,
                    Result::Err((
                        type_error_spec("boolean"@, type_of_spec(h1.scopes, v)),
                        blocks[0].0.span,
                    )),
                ),
            },
        }
    }
}

/// Whether the left operand has the kind the operator expects: the guard
/// that decides, before the right operand is evaluated at all, whether the
/// node fails on the left operand.
pub open spec fn binop_guard_ok(k: BinNode, v: ValueView) -> bool {
    match k {
        BinNode::Arith(_) | BinNode::Exponent | BinNode::Compare(_) => v matches ValueView::Int(_)
            || v matches ValueView::Float(_),
        BinNode::Concat => v matches ValueView::Str(_),
        BinNode::Logic(_) => v matches ValueView::Bool(_),
        BinNode::Equality => true,
    }
}

/// The arithmetic, comparison, concatenation and logic nodes share one
/// evaluation shape, differing only in the left-operand guard and the value
/// function; this names that shape once.
pub enum BinNode {
    Arith(ArithOp),
    Exponent,
    Concat,
    Logic(bool),
    Compare(Comparison),
    Equality,
}

pub open spec fn bin_guard(k: BinNode) -> Seq<char> {
    match k {
        BinNode::Arith(_) => "number"@,
        BinNode::Exponent => "number"@,
        BinNode::Concat => "string"@,
        BinNode::Logic(_) => "boolean"@,
        BinNode::Compare(_) => "number"@,
        BinNode::Equality => ""@,
    }
}

pub open spec fn bin_result(
    k: BinNode,
    scopes: Seq<ScopeView>,
    av: ValueView,
    bv: ValueView,
    a_span: Span,
    b_span: Span,
) -> Result<ValueView, (Seq<char>, Span)> {
    match k {
        BinNode::Arith(op) => arith_spec(op, scopes, av, bv, a_span, b_span),
        BinNode::Exponent => exponent_spec(scopes, av, bv, a_span, b_span),
        BinNode::Concat => concat_spec(scopes, av, bv, a_span, b_span),
        BinNode::Logic(is_and) => logic_spec(is_and, scopes, av, bv, a_span, b_span),
        BinNode::Compare(cmp) => compare_spec(cmp, scopes, av, bv, a_span, b_span),
        BinNode::Equality => Result::Ok(ValueView::Bool(val_eq(av, bv))),
    }
}

pub open spec fn bin_node_spec(
    h: HeapView,
    scope: int,
    k: BinNode,
    a: Chunk<Box<Reporter>>,
    b: Chunk<Box<Reporter>>,
    fuel: nat,
) -> (HeapView, Result<ValueView, (Seq<char>, Span)>)
    decreases fuel, 1int, 0int,
{
    let (h1, ra) = eval_spec(h, scope, *a.data, a.span, fuel);
    match ra {
        Result::Err(e) => (h1, Result::Err(e)),
        Result::Ok(av) => if !binop_guard_ok(k, av) {
            (
                h1,
                Result::Err((
                    type_error_spec(bin_guard(k), type_of_spec(h1.scopes, av)),
                    a.span,
                )),
            )
        } else {
            let (h2, rb) = eval_spec(h1, scope, *b.data, b.span, fuel);
            (
                h2,
                match rb {
                    Result::Err(e) => Result::Err(e),
                    Result::Ok(bv) => bin_result(k, h2.scopes, av, bv, a.span, b.span),
                },
            )
        },
    }
}

/// Big-step evaluation of one reporter: the pure mathematical semantics the
/// executable evaluator is proved equal to. The budget bounds the depth of
/// the derivation; exhausting it is a failure, never a wrong value.
pub open spec fn eval_spec(h: HeapView, scope: int, r: Reporter, span: Span, fuel: nat) -> (
    HeapView,
    Result<ValueView, (Seq<char>, Span)>,
)
    decreases fuel, 0int, 0int,
{
    if fuel == 0 {
        (h, Result::Err((budget_spec(), span)))
    } else {
        let sub = (fuel - 1) as nat;
        match r {
            Reporter::Parent(hops) => (
                h,
                match up_spec(h.scopes, scope, hops as int) {
                    Option::Some(t) => Result::Ok(ValueView::MapRef(t)),
                    Option::None => Result::Err((no_parent_spec(), span)),
                },
            ),
            Reporter::Null => (h, Result::Ok(ValueView::Null)),
            Reporter::ConstStr(s) => (h, Result::Ok(ValueView::Str(s@))),
            Reporter::ConstInt(i) => (h, Result::Ok(ValueView::Int(i))),
            Reporter::ConstFloat(f) => (h, Result::Ok(ValueView::Float(f))),
            Reporter::ConstBool(b) => (h, Result::Ok(ValueView::Bool(b))),
            Reporter::Block(insts) => {
                let child = h.scopes.len() as int;
                let h1 = HeapView {
                    scopes: h.scopes.push(ScopeView {
                        parent: Option::Some(scope),
                        vars: Seq::empty(),
                    }),
                    ..h
                };
                run_block_spec(h1, child, insts@, sub)
            },
            Reporter::Array(items) => {
                let (h1, rs) = eval_args_spec(h, scope, items.data@, sub);
                (
                    h1,
                    match rs {
                        Result::Ok(vs) => Result::Ok(ValueView::Array(vs)),
                        Result::Err(e) => Result::Err(e),
                    },
                )
            },
            Reporter::Function { parameters, body } => (
                HeapView {
                    funcs: h.funcs.push(CallableView::Script(FunctionView {
                        parent: scope,
                        params: Seq::new(parameters@.len(), |i: int| parameters@[i].data@),
                        body: body.tree_spec(),
                        body_span: body.span_spec(),
                    })),
                    ..h
                },
                Result::Ok(ValueView::Function(h.funcs.len() as int)),
            ),
            Reporter::Get { map, name } => {
                let (h1, rm) = eval_spec(h, scope, *map.data, map.span, sub);
                (
                    h1,
                    match rm {
                        Result::Err(e) => Result::Err(e),
                        Result::Ok(mv) => get_property_spec(
                            h1.scopes,
                            mv,
                            name.data@,
                            map.span,
                            name.span,
                        ),
                    },
                )
            },
            Reporter::DynGet { map, attr } => {
                let (h1, ra) = eval_spec(h, scope, *attr.data, attr.span, sub);
                match ra {
                    Result::Err(e) => (h1, Result::Err(e)),
                    Result::Ok(av) => match av {
                        ValueView::Str(aname) => {
                            let (h2, rm) = eval_spec(h1, scope, *map.data, map.span, sub);
                            (
                                h2,
                                match rm {
                                    Result::Err(e) => Result::Err(e),
                                    Result::Ok(mv) => get_property_spec(
                                        h2.scopes,
                                        mv,
                                        aname,
                                        map.span,
                                        attr.span,
                                    ),
                                },
                            )
                        },
                        v => (
                            h1,
                            Result::Err((
                                type_error_spec("string"@, type_of_spec(h1.scopes, v)),
                                attr.span,
                            )),
                        ),
                    },
                }
            },
            Reporter::Call(func, args) => {
                let (h1, rf) = eval_spec(h, scope, *func.data, func.span, sub);
                match rf {
                    Result::Err(e) => (h1, Result::Err(e)),
                    Result::Ok(fv) => match fv {
                        ValueView::Function(fidx) => {
                            let (h2, ra) = eval_args_spec(h1, scope, args@, sub);
                            match ra {
                                Result::Err(e) => (h2, Result::Err(e)),
                                Result::Ok(vals) => call_spec(h2, fidx, vals, span, sub),
                            }
                        },
                        v => (
                            h1,
                            Result::Err((
                                type_error_spec("function"@, type_of_spec(h1.scopes, v)),
                                func.span,
                            )),
                        ),
                    },
                }
            },
            Reporter::Import(name) => (
                h,
                match lookup_view(h.modules, name.data@) {
                    Option::Some(v) => Result::Ok(v),
                    Option::None => Result::Err((no_module_spec(name.data@), name.span)),
                },
            ),
            Reporter::If { blocks, else_block } => {
                let els = match else_block {
                    Option::Some(b) => Option::Some((*b.data, b.span)),
                    Option::None => Option::None,
                };
                if_chain_spec(h, scope, blocks@, els, sub)
            },
            Reporter::Add { a, b } => bin_node_spec(h, scope, BinNode::Arith(ArithOp::Add), a, b, sub),
            Reporter::Subtract { a, b } => bin_node_spec(
                h,
                scope,
                BinNode::Arith(ArithOp::Subtract),
                a,
                b,
                sub,
            ),
            Reporter::Multiply { a, b } => bin_node_spec(
                h,
                scope,
                BinNode::Arith(ArithOp::Multiply),
                a,
                b,
                sub,
            ),
            Reporter::Divide { a, b } => bin_node_spec(
                h,
                scope,
                BinNode::Arith(ArithOp::Divide),
                a,
                b,
                sub,
            ),
            Reporter::Exponent { a, b } => bin_node_spec(h, scope, BinNode::Exponent, a, b, sub),
            Reporter::Concat { a, b } => bin_node_spec(h, scope, BinNode::Concat, a, b, sub),
            Reporter::And { a, b } => bin_node_spec(h, scope, BinNode::Logic(true), a, b, sub),
            Reporter::Or { a, b } => bin_node_spec(h, scope, BinNode::Logic(false), a, b, sub),
            Reporter::Equality { a, b } => bin_node_spec(h, scope, BinNode::Equality, a, b, sub),
            Reporter::Inequality { a, b, op } => bin_node_spec(
                h,
                scope,
                BinNode::Compare(op.data),
                a,
                b,
                sub,
            ),
            Reporter::Not(x) => {
                let (h1, rv) = eval_spec(h, scope, *x.data, x.span, sub);
                (
                    h1,
                    match rv {
                        Result::Err(e) => Result::Err(e),
                        Result::Ok(v) => not_spec(h1.scopes, v, x.span),
                    },
                )
            },
            Reporter::Negative(x) => {
                let (h1, rv) = eval_spec(h, scope, *x.data, x.span, sub);
                (
                    h1,
                    match rv {
                        Result::Err(e) => Result::Err(e),
                        Result::Ok(v) => negative_spec(h1.scopes, v, x.span),
                    },
                )
            },
        }
    }
}

/// Big-step execution of an instruction list against `scope`: instructions
/// run in order; a `Return` short-circuits the rest and decides the result;
/// the first failure is the result; a list that executes no `Return` yields
/// its own scope as a map reference.
pub open spec fn run_block_spec(
    h: HeapView,
    scope: int,
    insts: Seq<Chunk<Instruction>>,
    fuel: nat,
) -> (HeapView, Result<ValueView, (Seq<char>, Span)>)
    decreases fuel, 1int, insts.len(),
{
    if insts.len() == 0 {
        (h, Result::Ok(ValueView::MapRef(scope)))
    } else if fuel == 0 {
        (h, Result::Err((budget_spec(), insts[0].span)))
    } else {
        let sub = (fuel - 1) as nat;
        match insts[0].data {
            Instruction::Assign { map, name, value } => {
                let (h1, rm) = eval_spec(h, scope, map.data, map.span, sub);
                match rm {
                    Result::Err(e) => (h1, Result::Err(e)),
                    Result::Ok(mv) => {
                        let (h2, rv) = eval_spec(h1, scope, value.data, value.span, sub);
                        match rv {
                            Result::Err(e) => (h2, Result::Err(e)),
                            Result::Ok(vv) => match mv {
                                ValueView::MapRef(idx) => {
                                    let h3 = HeapView {
                                        scopes: h2.scopes.update(idx, ScopeView {
                                            parent: h2.scopes[idx].parent,
                                            vars: assoc_set(h2.scopes[idx].vars, name.data@, vv),
                                        }),
                                        ..h2
                                    };
                                    run_block_spec(h3, scope, insts.drop_first(), fuel)
                                },
                                ValueView::MapVal(_) => run_block_spec(
                                    h2,
                                    scope,
                                    insts.drop_first(),
                                    fuel,
                                ),
                                v => (
                                    h2,
                                    Result::Err((
                                        type_error_spec("map"@, type_of_spec(h2.scopes, v)),
                                        map.span,
                                    )),
                                ),
                            },
                        }
                    },
                }
            },
            Instruction::While { condition, body } => {
                let (h1, rw) = run_while_spec(h, scope, condition, body.data@, sub);
                match rw {
                    Result::Err(e) => (h1, Result::Err(e)),
                    Result::Ok(_) => run_block_spec(h1, scope, insts.drop_first(), fuel),
                }
            },
            Instruction::For { name, iter, body } => {
                let (h1, ri) = eval_spec(h, scope, iter.data, iter.span, sub);
                match ri {
                    Result::Err(e) => (h1, Result::Err(e)),
                    Result::Ok(iv) => match iv {
                        ValueView::Function(fi) => {
                            let (h2, rr) = run_for_fn_spec(
                                h1,
                                scope,
                                name.data@,
                                fi,
                                body.data@,
                                iter.span,
                                sub,
                            );
                            match rr {
                                Result::Err(e) => (h2, Result::Err(e)),
                                Result::Ok(_) => run_block_spec(
                                    h2,
                                    scope,
                                    insts.drop_first(),
                                    fuel,
                                ),
                            }
                        },
                        ValueView::Array(items) => {
                            let (h2, rr) = run_for_arr_spec(
                                h1,
                                scope,
                                name.data@,
                                items,
                                0,
                                body.data@,
                                iter.span,
                                sub,
                            );
                            match rr {
                                Result::Err(e) => (h2, Result::Err(e)),
                                Result::Ok(_) => run_block_spec(
                                    h2,
                                    scope,
                                    insts.drop_first(),
                                    fuel,
                                ),
                            }
                        },
                        v => (
                            h1,
                            Result::Err((
                                iterator_err_spec(crate::value::primative_of_view(v)),
                                iter.span,
                            )),
                        ),
                    },
                }
            },
            Instruction::Return(value) => eval_spec(h, scope, value.data, value.span, sub),
            Instruction::Void(rep) => {
                let (h1, rv) = eval_spec(h, scope, rep, insts[0].span, sub);
                match rv {
                    Result::Err(e) => (h1, Result::Err(e)),
                    Result::Ok(_) => run_block_spec(h1, scope, insts.drop_first(), fuel),
                }
            },
        }
    }
}

/// Big-step `while`: the condition is re-evaluated in the outer scope
/// before each iteration and must be Boolean; each iteration's body runs in
/// a fresh child scope.
pub open spec fn run_while_spec(
    h: HeapView,
    scope: int,
    condition: Chunk<Reporter>,
    body: Seq<Chunk<Instruction>>,
    fuel: nat,
) -> (HeapView, Result<(), (Seq<char>, Span)>)
    decreases fuel, 1int, 0int,
{
    if fuel == 0 {
        (h, Result::Err((budget_spec(), condition.span)))
    } else {
        let (h1, rc) = eval_spec(h, scope, condition.data, condition.span, (fuel - 1) as nat);
        match rc {
            Result::Err(e) => (h1, Result::Err(e)),
            Result::Ok(cv) => match cv {
                ValueView::Bool(true) => {
                    let child = h1.scopes.len() as int;
                    let h2 = HeapView {
                        scopes: h1.scopes.push(ScopeView {
                            parent: Option::Some(scope),
                            vars: Seq::empty(),
                        }),
                        ..h1
                    };
                    let (h3, rb) = run_block_spec(h2, child, body, (fuel - 1) as nat);
                    match rb {
                        Result::Err(e) => (h3, Result::Err(e)),
                        Result::Ok(_) => run_while_spec(h3, scope, condition, body, (fuel
                            - 1) as nat),
                    }
                },
                ValueView::Bool(false) => (h1, Result::Ok(())),
                v => (
                    h1,
                    Result::Err((
                        type_error_spec("boolean"@, type_of_spec(h1.scopes, v)),
                        condition.span,
                    )),
                ),
            },
        }
    }
}

/// Big-step `for` over a pull-based iterator function: the callee is called
/// with no arguments until it yields null; each iteration binds the loop
/// variable in a fresh child scope and evicts it again afterward.
pub open spec fn run_for_fn_spec(
    h: HeapView,
    scope: int,
    name: Seq<char>,
    fi: int,
    body: Seq<Chunk<Instruction>>,
    iter_span: Span,
    fuel: nat,
) -> (HeapView, Result<(), (Seq<char>, Span)>)
    decreases fuel, 1int, 0int,
{
    if fuel == 0 {
        (h, Result::Err((budget_spec(), iter_span)))
    } else {
        let (h1, ri) = call_spec(h, fi, Seq::empty(), iter_span, (fuel - 1) as nat);
        match ri {
            Result::Err(e) => (h1, Result::Err(e)),
            Result::Ok(item) => if (item matches ValueView::Null) {
                (h1, Result::Ok(()))
            } else {
                let child = h1.scopes.len() as int;
                let h2 = HeapView {
                    scopes: h1.scopes.push(ScopeView {
                        parent: Option::Some(scope),
                        vars: Seq::empty(),
                    }),
                    ..h1
                };
                let h3 = HeapView {
                    scopes: h2.scopes.update(child, ScopeView {
                        parent: h2.scopes[child].parent,
                        vars: assoc_set(h2.scopes[child].vars, name, item),
                    }),
                    ..h2
                };
                let (h4, rb) = run_block_spec(h3, child, body, (fuel - 1) as nat);
                match rb {
                    Result::Err(e) => (h4, Result::Err(e)),
                    Result::Ok(_) => {
                        let h5 = HeapView {
                            scopes: h4.scopes.update(child, ScopeView {
                                parent: h4.scopes[child].parent,
                                vars: assoc_remove(h4.scopes[child].vars, name),
                            }),
                            ..h4
                        };
                        run_for_fn_spec(h5, scope, name, fi, body, iter_span, (fuel - 1) as nat)
                    },
                }
            },
        }
    }
}

/// Big-step `for` over an array: an index cursor walks the items; a null
/// item ends the loop early, exactly as an exhausted iterator does.
pub open spec fn run_for_arr_spec(
    h: HeapView,
    scope: int,
    name: Seq<char>,
    items: Seq<ValueView>,
    idx: int,
    body: Seq<Chunk<Instruction>>,
    iter_span: Span,
    fuel: nat,
) -> (HeapView, Result<(), (Seq<char>, Span)>)
    decreases fuel, 1int, 0int,
{
    if fuel == 0 {
        (h, Result::Err((budget_spec(), iter_span)))
    } else if idx >= items.len() {
        (h, Result::Ok(()))
    } else if (items[idx] matches ValueView::Null) {
        (h, Result::Ok(()))
    } else {
        let child = h.scopes.len() as int;
        let h2 = HeapView {
            scopes: h.scopes.push(ScopeView {
                parent: Option::Some(scope),
                vars: Seq::empty(),
            }),
            ..h
        };
        let h3 = HeapView {
            scopes: h2.scopes.update(child, ScopeView {
                parent: h2.scopes[child].parent,
                vars: assoc_set(h2.scopes[child].vars, name, items[idx]),
            }),
            ..h2
        };
        let (h4, rb) = run_block_spec(h3, child, body, (fuel - 1) as nat);
        match rb {
            Result::Err(e) => (h4, Result::Err(e)),
            Result::Ok(_) => {
                let h5 = HeapView {
                    scopes: h4.scopes.update(child, ScopeView {
                        parent: h4.scopes[child].parent,
                        vars: assoc_remove(h4.scopes[child].vars, name),
                    }),
                    ..h4
                };
                run_for_arr_spec(h5, scope, name, items, idx + 1, body, iter_span, (fuel
                    - 1) as nat)
            },
        }
    }
}

} // verus!
