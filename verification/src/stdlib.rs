use vstd::prelude::*;
use vstd::string::StringExecFns;
use crate::interpreter::CallableView;
use crate::interpreter::HeapView;
use crate::interpreter::native_spec;
use crate::interpreter::push_func_view;
use crate::interpreter::push_scope_view;
use crate::interpreter::register_module_view;
use crate::interpreter::scope_set_view;
use crate::value::vals_view;
use crate::value::lemma_vals_view;
use crate::error::Error;
use crate::interpreter::Callable;
use crate::interpreter::Heap;
use crate::interpreter::Scope;
use crate::interpreter::wf_val;
use crate::ops::type_error_msg;
use crate::span::Span;
use crate::value::MapEntry;
use crate::value::Value;
use crate::value::ValueView;

verus! {

/// One of the built-in callables of the standard library. Built-ins share
/// the calling contract of user-defined functions, so a script cannot tell
/// them apart; each is a tagged variant dispatched by the evaluator.
#[derive(Debug, Clone, Copy, PartialEq, Eq, Structural)]
pub enum NativeFn {
    Println,
    Print,
    MakeRange,
    Iterate(Range),
    IntToStr,
    MapKeys,
    MapHas,
    TypeOf,
    TypeAssert,
}

/// The pull-based iterator that `iter.range` returns: yields the integers
/// from `idx` up to, but not including, `end`, then nulls forever.
#[derive(Debug, Clone, Copy, PartialEq, Eq, Structural)]
pub struct Range {
    pub idx: i32,
    pub end: i32,
}

impl Range {
    /// One pull: the next integer of the range, stepping the cursor, or
    /// null once the range is spent.
    pub fn call(&mut self) -> (v: Value)
        ensures
            old(self).idx < old(self).end ==> v == Value::Int(old(self).idx) && final(self).idx
                == old(self).idx + 1 && final(self).end == old(self).end,
            old(self).idx >= old(self).end ==> v == Value::Null && *final(self) == *old(self),
    {
        if self.idx < self.end {
            let cur = self.idx;
            self.idx = cur + 1;
            Value::Int(cur)
        } else {
            Value::Null
        }
    }
}

/// The `iter.range` constructor: a fresh cursor over `[start, end)`.
pub fn range(start: i32, end: i32) -> (r: Result<Range, Error>)
    ensures
        r matches Ok(rg) && rg == (Range { idx: start, end: end }),
{
    Ok(Range { idx: start, end })
}

/// The character of one decimal digit.
pub open spec fn digit_char(d: int) -> char {
    if d == 0 {
        '0'
    } else if d == 1 {
        '1'
    } else if d == 2 {
        '2'
    } else if d == 3 {
        '3'
    } else if d == 4 {
        '4'
    } else if d == 5 {
        '5'
    } else if d == 6 {
        '6'
    } else if d == 7 {
        '7'
    } else if d == 8 {
        '8'
    } else {
        '9'
    }
}

/// The decimal digits of a non-negative number, most significant first.
pub open spec fn dec_str(n: nat) -> Seq<char>
    decreases n,
{
    if n < 10 {
        seq![digit_char(n as int)]
    } else {
        dec_str(n / 10).push(digit_char((n % 10) as int))
    }
}

/// The decimal rendering of an integer: a minus sign and the digits of its
/// magnitude.
pub open spec fn int_str_spec(i: int) -> Seq<char> {
    if i < 0 {
        seq!['-'] + dec_str((-i) as nat)
    } else {
        dec_str(i as nat)
    }
}

fn append_digit(s: &mut String, d: u32)
    requires
        d < 10,
    ensures
        final(s)@ == old(s)@ + seq![digit_char(d as int)],
{
    proof {
        reveal_strlit("0");
        reveal_strlit("1");
        reveal_strlit("2");
        reveal_strlit("3");
        reveal_strlit("4");
        reveal_strlit("5");
        reveal_strlit("6");
        reveal_strlit("7");
        reveal_strlit("8");
        reveal_strlit("9");
    }
    match d {
        0 => s.append("0"),
        1 => s.append("1"),
        2 => s.append("2"),
        3 => s.append("3"),
        4 => s.append("4"),
        5 => s.append("5"),
        6 => s.append("6"),
        7 => s.append("7"),
        8 => s.append("8"),
        _ => s.append("9"),
    }
    proof {
        assert(final(s)@ =~= old(s)@ + seq![digit_char(d as int)]);
    }
}

fn push_digits(s: &mut String, n: u32)
    ensures
        final(s)@ == old(s)@ + dec_str(n as nat),
    decreases n,
{
    if n < 10 {
        append_digit(s, n);
    } else {
        push_digits(s, n / 10);
        append_digit(s, n % 10);
        proof {
            assert(final(s)@ =~= old(s)@ + dec_str(n as nat));
        }
    }
}

/// The decimal rendering of a 32-bit int, proved digit by digit.
pub fn int_to_str(i: i32) -> (r: String)
    ensures
        r@ == int_str_spec(i as int),
{
    let mut s = String::new();
    if i < 0 {
        proof {
            reveal_strlit("-");
        }
        s.append("-");
        let m: u32 = ((-(i as i64)) as u32);
        proof {
            assert(m as nat == (-(i as int)) as nat);
        }
        push_digits(&mut s, m);
        proof {
            assert(s@ =~= int_str_spec(i as int));
        }
    } else {
        push_digits(&mut s, i as u32);
    }
    s
}

/// The keys of an association list, as string values in storage order.
fn keys_of(entries: &Vec<MapEntry>) -> (r: Vec<Value>)
    ensures
        r@.len() == entries@.len(),
        forall|i: int| 0 <= i < entries@.len() ==> ((#[trigger] r@[i]) matches Value::Str(s)
            && s@ == entries@[i].key@),
{
    let mut out: Vec<Value> = Vec::new();
    let mut i: usize = 0;
    while i < entries.len()
        invariant
            i <= entries@.len(),
            out@.len() == i,
            forall|j: int| 0 <= j < i ==> ((#[trigger] out@[j]) matches Value::Str(s) && s@
                == entries@[j].key@),
        decreases entries@.len() - i,
    {
        out.push(Value::Str(entries[i].key.clone()));
        i = i + 1;
    }
    out
}

/// Runs one built-in callable. None of them stores an argument value into
/// the heap; the printing ones append to the output log, and the range ones
/// create or step a cursor in the function arena.
pub fn call_native(heap: &mut Heap, fidx: usize, args: Vec<Value>, span: Span) -> (r: Result<
    Value,
    Error,
>)
    requires
        old(heap).wf(),
        fidx < old(heap).nf(),
        old(heap).funcs@[fidx as int] matches Callable::Native(_),
    ensures
        final(heap).wf(),
        final(heap).extends(*old(heap)),
        r matches Ok(v) ==> wf_val(v.vw(), final(heap).ns(), final(heap).nf()),
        old(heap).funcs@[fidx as int] matches Callable::Native(n) ==> ({
            let sr = native_spec(old(heap).vw(), fidx as int, n, vals_view(args@), span);
            final(heap).vw() == sr.0 && match sr.1 {
                Result::Ok(v) => r matches Ok(rv) && rv.vw() == v,
                Result::Err(ms) => r matches Err(e) && e.message_view() == ms.0 && e.span_view()
                    == ms.1,
            }
        }),
{
    proof {
        lemma_vals_view(args@);
        assert(old(heap).vw().funcs[fidx as int] == old(heap).funcs@[fidx as int].vw());
        assert(old(heap).vw().scopes == old(heap).scopes_vw());
    }
    let ghost args0 = args@;
    let native: NativeFn = match &heap.funcs[fidx] {
        Callable::Native(n) => *n,
        Callable::Script(_) => {
            proof {
                assert(false);
            }
            NativeFn::Println
        },
    };
    let mut args = args;
    match native {
        NativeFn::Println => {
            if args.len() < 1 {
                return Err(Error::new(
                    String::from_str("This function expected more arguments."),
                    span,
                ));
            }
            let a0 = args.remove(0);
            match a0 {
                Value::Str(s) => {
                    heap.log_output(s.concat("\n"));
                    Ok(Value::Null)
                },
                v => {
                    let found = v.type_of(heap);
                    Err(Error::new(type_error_msg("string", found), span))
                },
            }
        },
        NativeFn::Print => {
            if args.len() < 1 {
                return Err(Error::new(
                    String::from_str("This function expected more arguments."),
                    span,
                ));
            }
            let a0 = args.remove(0);
            match a0 {
                Value::Str(s) => {
                    heap.log_output(s);
                    Ok(Value::Null)
                },
                v => {
                    let found = v.type_of(heap);
                    Err(Error::new(type_error_msg("string", found), span))
                },
            }
        },
        NativeFn::MakeRange => {
            if args.len() < 2 {
                return Err(Error::new(
                    String::from_str("This function expected more arguments."),
                    span,
                ));
            }
            let a0 = args.remove(0);
            let a1 = args.remove(0);
            match (a0, a1) {
                (Value::Int(start), Value::Int(end)) => {
                    let rg = match range(start, end) {
                        Ok(rg) => rg,
                        Err(e) => {
                            return Err(e);
                        },
                    };
                    let idx = heap.push_func(Callable::Native(NativeFn::Iterate(rg)));
                    Ok(Value::Function(idx))
                },
                (Value::Int(_), v) => {
                    let found = v.type_of(heap);
                    Err(Error::new(type_error_msg("int", found), span))
                },
                (v, _) => {
                    let found = v.type_of(heap);
                    Err(Error::new(type_error_msg("int", found), span))
                },
            }
        },
        NativeFn::Iterate(rg) => {
            let mut rg = rg;
            let v = rg.call();
            heap.set_native(fidx, NativeFn::Iterate(rg));
            Ok(v)
        },
        NativeFn::IntToStr => {
            if args.len() < 1 {
                return Err(Error::new(
                    String::from_str("This function expected more arguments."),
                    span,
                ));
            }
            let a0 = args.remove(0);
            match a0 {
                Value::Int(i) => Ok(Value::Str(int_to_str(i))),
                v => {
                    let found = v.type_of(heap);
                    Err(Error::new(type_error_msg("int", found), span))
                },
            }
        },
        NativeFn::MapKeys => {
            if args.len() < 1 {
                return Err(Error::new(
                    String::from_str("This function expected more arguments."),
                    span,
                ));
            }
            let a0 = args.remove(0);
            match a0 {
                Value::MapRef(i) => {
                    if i < heap.scopes.len() {
                        let keys = keys_of(&heap.scopes[i].variables);
                        proof {
                            crate::value::lemma_vals_view(keys@);
                            crate::value::lemma_entries_view(heap.scopes@[i as int].variables@);
                            assert(heap.vw().scopes[i as int] == heap.scope_at(i as int));
                            assert(vals_view(keys@) =~= Seq::new(
                                heap.vw().scopes[i as int].vars.len(),
                                |j: int| ValueView::Str(heap.vw().scopes[i as int].vars[j].key),
                            ));
                            assert forall|j: int| 0 <= j < crate::value::vals_view(keys@).len()
                                implies wf_val(
                                #[trigger] crate::value::vals_view(keys@)[j],
                                heap.ns(),
                                heap.nf(),
                            ) by {
                                assert(crate::value::vals_view(keys@)[j] == keys@[j].vw());
                            }
                        }
                        Ok(Value::Array(keys))
                    } else {
                        Ok(Value::Array(Vec::new()))
                    }
                },
                v => {
                    let found = v.type_of(heap);
                    Err(Error::new(type_error_msg("map", found), span))
                },
            }
        },
        NativeFn::MapHas => {
            if args.len() < 2 {
                return Err(Error::new(
                    String::from_str("This function expected more arguments."),
                    span,
                ));
            }
            let a0 = args.remove(0);
            let a1 = args.remove(0);
            match (a0, a1) {
                (Value::MapRef(i), Value::Str(name)) => {
                    if i < heap.scopes.len() {
                        let found = crate::value::assoc_get(&heap.scopes[i].variables, &name);
                        Ok(Value::Bool(found.is_some()))
                    } else {
                        Ok(Value::Bool(false))
                    }
                },
                (Value::MapRef(_), v) => {
                    let found = v.type_of(heap);
                    Err(Error::new(type_error_msg("string", found), span))
                },
                (v, _) => {
                    let found = v.type_of(heap);
                    Err(Error::new(type_error_msg("map", found), span))
                },
            }
        },
        NativeFn::TypeOf => {
            if args.len() < 1 {
                return Err(Error::new(
                    String::from_str("This function expected more arguments."),
                    span,
                ));
            }
            let a0 = args.remove(0);
            Ok(Value::Str(a0.type_of(heap)))
        },
        NativeFn::TypeAssert => {
            if args.len() < 2 {
                return Err(Error::new(
                    String::from_str("This function expected more arguments."),
                    span,
                ));
            }
            let a0 = args.remove(0);
            let a1 = args.remove(0);
            match a1 {
                Value::Str(expected) => {
                    let vtype = a0.type_of(heap);
                    if !crate::value::string_eq(&vtype, &expected) {
                        Err(Error::new(
                            type_error_msg(expected.as_str(), vtype),
                            Span::zero(),
                        ))
                    } else {
                        Ok(Value::Null)
                    }
                },
                v => {
                    let found = v.type_of(heap);
                    Err(Error::new(type_error_msg("string", found), span))
                },
            }
        },
    }
}

/// The machine state the registry builder constructs from an empty heap:
/// the eight built-ins, the five namespace scopes behind the prelude and
/// the import hook, and the prelude scope itself at index five.
/// The image of pushing the eight built-in callables, in order.
pub open spec fn builtins_stage(h: HeapView) -> HeapView {
    let h = push_func_view(h, CallableView::Native(NativeFn::Println));
    let h = push_func_view(h, CallableView::Native(NativeFn::Print));
    let h = push_func_view(h, CallableView::Native(NativeFn::MakeRange));
    let h = push_func_view(h, CallableView::Native(NativeFn::IntToStr));
    let h = push_func_view(h, CallableView::Native(NativeFn::MapKeys));
    let h = push_func_view(h, CallableView::Native(NativeFn::MapHas));
    let h = push_func_view(h, CallableView::Native(NativeFn::TypeOf));
    let h = push_func_view(h, CallableView::Native(NativeFn::TypeAssert));
    h
}

/// The image of building the `int` namespace scope.
pub open spec fn int_lib_stage(h: HeapView, f_to_str: int) -> HeapView {
    let s = h.scopes.len() as int;
    let h1 = push_scope_view(h, Option::None);
    scope_set_view(h1, s, "to_str"@, ValueView::Function(f_to_str))
}

/// The image of building the `map` namespace scope.
pub open spec fn map_lib_stage(h: HeapView, f_keys: int, f_has: int) -> HeapView {
    let s = h.scopes.len() as int;
    let h1 = push_scope_view(h, Option::None);
    let h2 = scope_set_view(h1, s, "keys"@, ValueView::Function(f_keys));
    scope_set_view(h2, s, "has"@, ValueView::Function(f_has))
}

/// The image of building the `iter` namespace scope.
pub open spec fn iter_lib_stage(h: HeapView, f_range: int) -> HeapView {
    let s = h.scopes.len() as int;
    let h1 = push_scope_view(h, Option::None);
    scope_set_view(h1, s, "range"@, ValueView::Function(f_range))
}

/// The image of building the `type` namespace scope.
pub open spec fn type_lib_stage(h: HeapView, f_type_of: int, f_assert: int) -> HeapView {
    let s = h.scopes.len() as int;
    let h1 = push_scope_view(h, Option::None);
    let h2 = scope_set_view(h1, s, "type_of"@, ValueView::Function(f_type_of));
    scope_set_view(h2, s, "assert"@, ValueView::Function(f_assert))
}

/// The image of building the `io` namespace scope.
pub open spec fn io_lib_stage(h: HeapView, f_println: int, f_print: int) -> HeapView {
    let s = h.scopes.len() as int;
    let h1 = push_scope_view(h, Option::None);
    let h2 = scope_set_view(h1, s, "println"@, ValueView::Function(f_println));
    scope_set_view(h2, s, "print"@, ValueView::Function(f_print))
}

/// The image of registering the five standard modules.
pub open spec fn modules_stage(
    h: HeapView,
    int_lib: int,
    map_lib: int,
    iter_lib: int,
    type_lib: int,
    io_lib: int,
) -> HeapView {
    let h1 = register_module_view(h, "std/iter"@, ValueView::MapRef(iter_lib));
    let h2 = register_module_view(h1, "std/int"@, ValueView::MapRef(int_lib));
    let h3 = register_module_view(h2, "std/map"@, ValueView::MapRef(map_lib));
    let h4 = register_module_view(h3, "std/type"@, ValueView::MapRef(type_lib));
    register_module_view(h4, "std/io"@, ValueView::MapRef(io_lib))
}

/// The image of building the prelude scope: the six bindings, in the order
/// the compile-time prelude declares them.
pub open spec fn prelude_stage(
    h: HeapView,
    int_lib: int,
    map_lib: int,
    iter_lib: int,
    type_lib: int,
    f_println: int,
    f_print: int,
) -> HeapView {
    let s = h.scopes.len() as int;
    let h1 = push_scope_view(h, Option::None);
    let h2 = scope_set_view(h1, s, "int"@, ValueView::MapRef(int_lib));
    let h3 = scope_set_view(h2, s, "map"@, ValueView::MapRef(map_lib));
    let h4 = scope_set_view(h3, s, "iter"@, ValueView::MapRef(iter_lib));
    let h5 = scope_set_view(h4, s, "type"@, ValueView::MapRef(type_lib));
    let h6 = scope_set_view(h5, s, "println"@, ValueView::Function(f_println));
    scope_set_view(h6, s, "print"@, ValueView::Function(f_print))
}

/// The machine state the registry builder leaves behind, as a function of
/// the state it started from: the eight built-ins, the five namespace
/// scopes, the module registry, and the prelude scope pushed last.
pub open spec fn registry_built(h: HeapView) -> HeapView {
    let nf = h.funcs.len() as int;
    let ns = h.scopes.len() as int;
    let h1 = builtins_stage(h);
    let h2 = int_lib_stage(h1, nf + 3);
    let h3 = map_lib_stage(h2, nf + 4, nf + 5);
    let h4 = iter_lib_stage(h3, nf + 2);
    let h5 = type_lib_stage(h4, nf + 6, nf + 7);
    let h6 = io_lib_stage(h5, nf, nf + 1);
    let h7 = modules_stage(h6, ns, ns + 1, ns + 2, ns + 3, ns + 4);
    prelude_stage(h7, ns, ns + 1, ns + 2, ns + 3, nf, nf + 1)
}

/// Builds the built-in namespaces and the prelude scope, and registers the
/// standard modules behind the import hook. Returns the prelude scope, the
/// outermost link of every program's scope chain: it binds exactly the
/// names the compile-time prelude frame declares, in the same order, so a
/// hop-resolved prelude reference finds its binding at run time.
#[verifier::rlimit(50)]
pub fn init_registry(heap: &mut Heap) -> (prelude: usize)
    requires
        old(heap).wf(),
    ensures
        final(heap).wf(),
        final(heap).extends(*old(heap)),
        prelude < final(heap).ns(),
        prelude as int == old(heap).ns() + 5,
        final(heap).ns() == old(heap).ns() + 6,
        final(heap).nf() == old(heap).nf() + 8,
        final(heap).vw() == registry_built(old(heap).vw()),
        final(heap).scope_at(prelude as int).vars.len() == crate::compiler::prelude_names().len(),
        forall|i: int| 0 <= i < crate::compiler::prelude_names().len()
            ==> final(heap).scope_at(prelude as int).vars[i].key
            == crate::compiler::prelude_names()[i],
{
    let ghost g0 = heap.vw();
    let f_println = heap.push_func(Callable::Native(NativeFn::Println));
    let f_print = heap.push_func(Callable::Native(NativeFn::Print));
    let f_range = heap.push_func(Callable::Native(NativeFn::MakeRange));
    let f_to_str = heap.push_func(Callable::Native(NativeFn::IntToStr));
    let f_keys = heap.push_func(Callable::Native(NativeFn::MapKeys));
    let f_has = heap.push_func(Callable::Native(NativeFn::MapHas));
    let f_type_of = heap.push_func(Callable::Native(NativeFn::TypeOf));
    let f_assert = heap.push_func(Callable::Native(NativeFn::TypeAssert));
    let ghost g1 = heap.vw();
    proof {
        assert(g1 == builtins_stage(g0));
    }

    let int_lib = heap.push_scope(Scope::new(None));
    heap.scope_set(int_lib, String::from_str("to_str"), Value::Function(f_to_str));
    let ghost g2 = heap.vw();
    proof {
        assert(g2 == int_lib_stage(g1, f_to_str as int));
    }

    let map_lib = heap.push_scope(Scope::new(None));
    heap.scope_set(map_lib, String::from_str("keys"), Value::Function(f_keys));
    heap.scope_set(map_lib, String::from_str("has"), Value::Function(f_has));
    let ghost g3 = heap.vw();
    proof {
        assert(g3 == map_lib_stage(g2, f_keys as int, f_has as int));
    }

    let iter_lib = heap.push_scope(Scope::new(None));
    heap.scope_set(iter_lib, String::from_str("range"), Value::Function(f_range));
    let ghost g4 = heap.vw();
    proof {
        assert(g4 == iter_lib_stage(g3, f_range as int));
    }

    let type_lib = heap.push_scope(Scope::new(None));
    heap.scope_set(type_lib, String::from_str("type_of"), Value::Function(f_type_of));
    heap.scope_set(type_lib, String::from_str("assert"), Value::Function(f_assert));
    let ghost g5 = heap.vw();
    proof {
        assert(g5 == type_lib_stage(g4, f_type_of as int, f_assert as int));
    }

    let io_lib = heap.push_scope(Scope::new(None));
    heap.scope_set(io_lib, String::from_str("println"), Value::Function(f_println));
    heap.scope_set(io_lib, String::from_str("print"), Value::Function(f_print));
    let ghost g6 = heap.vw();
    proof {
        assert(g6 == io_lib_stage(g5, f_println as int, f_print as int));
    }

    heap.register_module(String::from_str("std/iter"), Value::MapRef(iter_lib));
    heap.register_module(String::from_str("std/int"), Value::MapRef(int_lib));
    heap.register_module(String::from_str("std/map"), Value::MapRef(map_lib));
    heap.register_module(String::from_str("std/type"), Value::MapRef(type_lib));
    heap.register_module(String::from_str("std/io"), Value::MapRef(io_lib));
    let ghost g7 = heap.vw();
    proof {
        assert(g7 == modules_stage(g6, int_lib as int, map_lib as int, iter_lib as int,
            type_lib as int, io_lib as int));
    }

    let prelude = heap.push_scope(Scope::new(None));
    proof {
        reveal_strlit("int");
        reveal_strlit("map");
        reveal_strlit("iter");
        reveal_strlit("type");
        reveal_strlit("println");
        reveal_strlit("print");
        // the six prelude names are pairwise distinct: most differ in
        // length, and the two same-length pairs differ in their first
        // character
        assert(("int"@)[0] == 'i' && ("map"@)[0] == 'm');
        assert(("iter"@)[0] == 'i' && ("type"@)[0] == 't');
    }
    let ghost v0 = heap.scope_at(prelude as int).vars;
    heap.scope_set(prelude, String::from_str("int"), Value::MapRef(int_lib));
    let ghost v1 = heap.scope_at(prelude as int).vars;
    heap.scope_set(prelude, String::from_str("map"), Value::MapRef(map_lib));
    let ghost v2 = heap.scope_at(prelude as int).vars;
    heap.scope_set(prelude, String::from_str("iter"), Value::MapRef(iter_lib));
    let ghost v3 = heap.scope_at(prelude as int).vars;
    heap.scope_set(prelude, String::from_str("type"), Value::MapRef(type_lib));
    let ghost v4 = heap.scope_at(prelude as int).vars;
    heap.scope_set(prelude, String::from_str("println"), Value::Function(f_println));
    let ghost v5 = heap.scope_at(prelude as int).vars;
    heap.scope_set(prelude, String::from_str("print"), Value::Function(f_print));
    proof {
        reveal_strlit("int");
        reveal_strlit("map");
        reveal_strlit("iter");
        reveal_strlit("type");
        reveal_strlit("println");
        reveal_strlit("print");
        assert(("int"@)[0] == 'i' && ("map"@)[0] == 'm');
        assert(("iter"@)[0] == 'i' && ("type"@)[0] == 't');
        crate::interpreter::lemma_assoc_set_fresh(v0, "int"@, Value::MapRef(int_lib).vw());
        assert forall|j: int| 0 <= j < v1.len() implies v1[j].key != "map"@ by {
            assert(v1[0].key == "int"@);
        }
        crate::interpreter::lemma_assoc_set_fresh(v1, "map"@, Value::MapRef(map_lib).vw());
        assert forall|j: int| 0 <= j < v2.len() implies v2[j].key != "iter"@ by {
            assert(v2[0].key == "int"@ && v2[1].key == "map"@);
            assert(("int"@).len() != ("iter"@).len() && ("map"@).len() != ("iter"@).len());
        }
        crate::interpreter::lemma_assoc_set_fresh(v2, "iter"@, Value::MapRef(iter_lib).vw());
        assert forall|j: int| 0 <= j < v3.len() implies v3[j].key != "type"@ by {
            assert(v3[0].key == "int"@ && v3[1].key == "map"@ && v3[2].key == "iter"@);
            assert(("int"@).len() != ("type"@).len() && ("map"@).len() != ("type"@).len());
        }
        crate::interpreter::lemma_assoc_set_fresh(v3, "type"@, Value::MapRef(type_lib).vw());
        assert forall|j: int| 0 <= j < v4.len() implies v4[j].key != "println"@ by {
            assert(v4[0].key == "int"@ && v4[1].key == "map"@ && v4[2].key == "iter"@
                && v4[3].key == "type"@);
            assert(("int"@).len() != ("println"@).len() && ("map"@).len() != ("println"@).len()
                && ("iter"@).len() != ("println"@).len() && ("type"@).len()
                != ("println"@).len());
        }
        crate::interpreter::lemma_assoc_set_fresh(v4, "println"@, Value::Function(f_println).vw());
        assert forall|j: int| 0 <= j < v5.len() implies v5[j].key != "print"@ by {
            assert(v5[0].key == "int"@ && v5[1].key == "map"@ && v5[2].key == "iter"@
                && v5[3].key == "type"@ && v5[4].key == "println"@);
            assert(("int"@).len() != ("print"@).len() && ("map"@).len() != ("print"@).len()
                && ("iter"@).len() != ("print"@).len() && ("type"@).len() != ("print"@).len()
                && ("println"@).len() != ("print"@).len());
        }
        crate::interpreter::lemma_assoc_set_fresh(v5, "print"@, Value::Function(f_print).vw());
        assert(heap.scope_at(prelude as int).vars.len() == crate::compiler::prelude_names().len());
        assert(heap.scope_at(prelude as int).vars[0].key == "int"@);
        assert(heap.scope_at(prelude as int).vars[1].key == "map"@);
        assert(heap.scope_at(prelude as int).vars[2].key == "iter"@);
        assert(heap.scope_at(prelude as int).vars[3].key == "type"@);
        assert(heap.scope_at(prelude as int).vars[4].key == "println"@);
        assert(heap.scope_at(prelude as int).vars[5].key == "print"@);
        assert(heap.vw() == prelude_stage(g7, int_lib as int, map_lib as int, iter_lib as int,
            type_lib as int, f_println as int, f_print as int));
        assert(heap.vw() == registry_built(g0));
    }
    prelude
}

} // verus!
