use vstd::prelude::*;
use crate::floats::float_eq;
use crate::floats::float_eq_of;

verus! {

/// The key under which a map may carry its own type name; `type_of` consults
/// it before falling back to the primitive tag.
pub const TYPE_NAME_KEY: &'static str = "__type";

/// String equality, delegated to `String`'s own `eq`, whose contract vstd
/// states over the character sequences.
pub fn string_eq(a: &String, b: &String) -> (r: bool)
    ensures
        r == (a@ == b@),
{
    a.eq(b)
}

/// The mathematical image of one key/value pair of a map or scope.
pub struct MapEntryView {
    pub key: Seq<char>,
    pub val: ValueView,
}

/// The mathematical image of a runtime value, with every string a sequence
/// of characters and every collection a sequence. All contracts of the
/// evaluator are stated over this type.
pub enum ValueView {
    Null,
    Str(Seq<char>),
    Int(i32),
    Float(u64),
    Bool(bool),
    Function(int),
    Array(Seq<ValueView>),
    MapVal(Seq<MapEntryView>),
    MapRef(int),
}

/// One key/value pair of an owned map, and of a scope's bindings.
#[derive(Debug, PartialEq)]
pub struct MapEntry {
    pub key: String,
    pub val: Value,
}

/// The dynamic runtime value. `Function` and `MapRef` hold indices into the
/// interpreter's function and scope arenas, so equality on them is identity
/// of the referenced object; everything else compares structurally.
///
/// Floats are carried as IEEE-754 binary64 bit patterns (see
/// [`crate::floats`]). Owned maps are association lists.
#[derive(Debug, PartialEq)]
pub enum Value {
    Null,
    Str(String),
    Int(i32),
    Float(u64),
    Bool(bool),
    Function(usize),
    Array(Vec<Value>),
    MapVal(Vec<MapEntry>),
    MapRef(usize),
}

impl Value {
    /// The mathematical image of this value.
    pub open spec fn vw(self) -> ValueView
        decreases self,
    {
        match self {
            Value::Null => ValueView::Null,
            Value::Str(s) => ValueView::Str(s@),
            Value::Int(i) => ValueView::Int(i),
            Value::Float(f) => ValueView::Float(f),
            Value::Bool(b) => ValueView::Bool(b),
            Value::Function(i) => ValueView::Function(i as int),
            Value::Array(items) => ValueView::Array(vals_view(items@)),
            Value::MapVal(entries) => ValueView::MapVal(entries_view(entries@)),
            Value::MapRef(i) => ValueView::MapRef(i as int),
        }
    }
}

/// The images of a sequence of values.
pub open spec fn vals_view(items: Seq<Value>) -> Seq<ValueView>
    decreases items,
{
    if items.len() == 0 {
        Seq::empty()
    } else {
        vals_view(items.drop_last()).push(items.last().vw())
    }
}

/// The images of a sequence of map entries.
pub open spec fn entries_view(entries: Seq<MapEntry>) -> Seq<MapEntryView>
    decreases entries,
{
    if entries.len() == 0 {
        Seq::empty()
    } else {
        entries_view(entries.drop_last()).push(
            MapEntryView { key: entries.last().key@, val: entries.last().val.vw() },
        )
    }
}

pub proof fn lemma_vals_view(items: Seq<Value>)
    ensures
        vals_view(items).len() == items.len(),
        forall|i: int| 0 <= i < items.len() ==> vals_view(items)[i] == items[i].vw(),
    decreases items,
{
    if items.len() > 0 {
        lemma_vals_view(items.drop_last());
    }
}

pub proof fn lemma_entries_view(entries: Seq<MapEntry>)
    ensures
        entries_view(entries).len() == entries.len(),
        forall|i: int| 0 <= i < entries.len() ==> entries_view(entries)[i]
            == (MapEntryView { key: entries[i].key@, val: entries[i].val.vw() }),
    decreases entries,
{
    if entries.len() > 0 {
        lemma_entries_view(entries.drop_last());
    }
}

/// Structural equality of runtime values, as the evaluator's `==` sees it:
/// identity for functions and map references, IEEE-754 equality for floats,
/// pointwise equality for arrays and owned maps, and `false` across
/// mismatched kinds.
pub open spec fn val_eq(a: ValueView, b: ValueView) -> bool
    decreases a,
{
    match (a, b) {
        (ValueView::Null, ValueView::Null) => true,
        (ValueView::Str(x), ValueView::Str(y)) => x == y,
        (ValueView::Int(x), ValueView::Int(y)) => x == y,
        (ValueView::Float(x), ValueView::Float(y)) => float_eq_of(x, y),
        (ValueView::Bool(x), ValueView::Bool(y)) => x == y,
        (ValueView::Function(x), ValueView::Function(y)) => x == y,
        (ValueView::Array(x), ValueView::Array(y)) => {
            &&& x.len() == y.len()
            &&& (forall|i: int| 0 <= i < x.len() ==> val_eq(x[i], y[i]))
        },
        (ValueView::MapVal(x), ValueView::MapVal(y)) => {
            &&& x.len() == y.len()
            &&& (forall|i: int| 0 <= i < x.len() ==> x[i].key == y[i].key && val_eq(x[i].val, y[i].val))
        },
        (ValueView::MapRef(x), ValueView::MapRef(y)) => x == y,
        _ => false,
    }
}

impl Value {
    /// The tag name of the value's own kind, ignoring any `__type` metadata.
    pub fn primative_type(&self) -> (r: &'static str)
        ensures
            r@ == self.primative_type_spec(),
    {
        let r = match self {
            Value::Null => "null",
            Value::Str(_) => "string",
            Value::Int(_) => "int",
            Value::Float(_) => "float",
            Value::Bool(_) => "bool",
            Value::Function(_) => "function",
            Value::Array(_) => "array",
            Value::MapVal(_) => "map",
            Value::MapRef(_) => "map",
        };
        r
    }

    pub open spec fn primative_type_spec(&self) -> Seq<char> {
        primative_of_view(self.vw())
    }
}

/// The tag name of a value's own kind, over its mathematical image.
pub open spec fn primative_of_view(v: ValueView) -> Seq<char> {
    match v {
        ValueView::Null => "null"@,
        ValueView::Str(_) => "string"@,
        ValueView::Int(_) => "int"@,
        ValueView::Float(_) => "float"@,
        ValueView::Bool(_) => "bool"@,
        ValueView::Function(_) => "function"@,
        ValueView::Array(_) => "array"@,
        ValueView::MapVal(_) => "map"@,
        ValueView::MapRef(_) => "map"@,
    }
}

impl Clone for MapEntry {
    fn clone(&self) -> (r: Self)
        ensures
            r.key@ == self.key@,
            r.val.vw() == self.val.vw(),
        decreases *self,
    {
        proof {
            assert(decreases_to!(*self => (*self).val));
        }
        MapEntry { key: self.key.clone(), val: self.val.clone() }
    }
}

impl Clone for Value {
    /// Cloning preserves the mathematical image of the value.
    fn clone(&self) -> (r: Self)
        ensures
            r.vw() == self.vw(),
        decreases *self,
    {
        match self {
            Value::Null => Value::Null,
            Value::Str(s) => Value::Str(s.clone()),
            Value::Int(i) => Value::Int(*i),
            Value::Float(f) => Value::Float(*f),
            Value::Bool(b) => Value::Bool(*b),
            Value::Function(i) => Value::Function(*i),
            Value::Array(items) => {
                let mut out: Vec<Value> = Vec::new();
                let mut i: usize = 0;
                while i < items.len()
                    invariant
                        i <= items@.len(),
                        out@.len() == i,
                        self == &Value::Array(*items),
                        forall|j: int| 0 <= j < i ==> out@[j].vw() == items@[j].vw(),
                    decreases items@.len() - i,
                {
                    proof {
                        assert(decreases_to!(*self => (*self)->Array_0));
                        assert(decreases_to!(*items => items@));
                        assert(decreases_to!(items@ => items@[i as int]));
                    }
                    out.push(items[i].clone());
                    i = i + 1;
                }
                proof {
                    lemma_vals_view(out@);
                    lemma_vals_view(items@);
                    assert(vals_view(out@) =~= vals_view(items@));
                }
                Value::Array(out)
            },
            Value::MapVal(entries) => {
                let mut out: Vec<MapEntry> = Vec::new();
                let mut i: usize = 0;
                while i < entries.len()
                    invariant
                        i <= entries@.len(),
                        out@.len() == i,
                        self == &Value::MapVal(*entries),
                        forall|j: int| 0 <= j < i ==> out@[j].key@ == entries@[j].key@
                            && out@[j].val.vw() == entries@[j].val.vw(),
                    decreases entries@.len() - i,
                {
                    proof {
                        assert(decreases_to!(*self => (*self)->MapVal_0));
                        assert(decreases_to!(*entries => entries@));
                        assert(decreases_to!(entries@ => entries@[i as int]));
                        assert(decreases_to!(entries@[i as int] => entries@[i as int].val));
                    }
                    out.push(entries[i].clone());
                    i = i + 1;
                }
                proof {
                    lemma_entries_view(out@);
                    lemma_entries_view(entries@);
                    assert(entries_view(out@) =~= entries_view(entries@));
                }
                Value::MapVal(out)
            },
            Value::MapRef(i) => Value::MapRef(*i),
        }
    }
}

/// Looks a name up in an association list, front to back.
pub open spec fn lookup_view(entries: Seq<MapEntryView>, name: Seq<char>) -> Option<ValueView>
    decreases entries.len(),
{
    if entries.len() == 0 {
        Option::None
    } else if entries[0].key == name {
        Option::Some(entries[0].val)
    } else {
        lookup_view(entries.drop_first(), name)
    }
}

/// Executable association-list lookup, returning a reference to the value
/// bound to `name`, if any.
pub fn assoc_get<'a>(entries: &'a Vec<MapEntry>, name: &String) -> (r: Option<&'a Value>)
    ensures
        match r {
            Option::Some(v) => lookup_view(entries_view(entries@), name@)
                == Option::Some(v.vw()),
            Option::None => lookup_view(entries_view(entries@), name@) is None,
        },
{
    proof {
        lemma_entries_view(entries@);
    }
    let ghost w = entries_view(entries@);
    proof {
        assert(w.skip(0) =~= w);
    }
    let mut i: usize = 0;
    while i < entries.len()
        invariant
            i <= entries@.len(),
            w == entries_view(entries@),
            w.len() == entries@.len(),
            forall|j: int| 0 <= j < entries@.len() ==> w[j]
                == (MapEntryView { key: entries@[j].key@, val: entries@[j].val.vw() }),
            lookup_view(w, name@) == lookup_view(w.skip(i as int), name@),
        decreases entries@.len() - i,
    {
        proof {
            assert(w.skip(i as int).len() > 0);
            assert(w.skip(i as int)[0] == w[i as int]);
        }
        if string_eq(&entries[i].key, name) {
            return Some(&entries[i].val);
        }
        proof {
            assert(w.skip(i as int).drop_first() =~= w.skip(i + 1));
        }
        i = i + 1;
    }
    proof {
        assert(w.skip(i as int).len() == 0);
    }
    None
}

/// Executable structural equality, mirroring [`val_eq`] exactly.
pub fn values_equal(a: &Value, b: &Value) -> (r: bool)
    ensures
        r == val_eq(a.vw(), b.vw()),
    decreases *a,
{
    match (a, b) {
        (Value::Null, Value::Null) => true,
        (Value::Str(x), Value::Str(y)) => string_eq(x, y),
        (Value::Int(x), Value::Int(y)) => *x == *y,
        (Value::Float(x), Value::Float(y)) => float_eq(*x, *y),
        (Value::Bool(x), Value::Bool(y)) => *x == *y,
        (Value::Function(x), Value::Function(y)) => *x == *y,
        (Value::Array(x), Value::Array(y)) => {
            proof {
                lemma_vals_view(x@);
                lemma_vals_view(y@);
            }
            if x.len() != y.len() {
                return false;
            }
            let mut i: usize = 0;
            while i < x.len()
                invariant
                    i <= x@.len(),
                    x@.len() == y@.len(),
                    vals_view(x@).len() == x@.len(),
                    vals_view(y@).len() == y@.len(),
                    forall|j: int| 0 <= j < x@.len() ==> vals_view(x@)[j] == x@[j].vw(),
                    forall|j: int| 0 <= j < y@.len() ==> vals_view(y@)[j] == y@[j].vw(),
                    forall|j: int| 0 <= j < i ==> val_eq(x@[j].vw(), y@[j].vw()),
                    a == &Value::Array(*x),
                    b == &Value::Array(*y),
                decreases x@.len() - i,
            {
                proof {
                    assert(decreases_to!(*a => (*a)->Array_0));
                    assert(decreases_to!(*x => x@));
                    assert(decreases_to!(x@ => x@[i as int]));
                }
                if !values_equal(&x[i], &y[i]) {
                    proof {
                        assert(!val_eq(vals_view(x@)[i as int], vals_view(y@)[i as int]));
                    }
                    return false;
                }
                i = i + 1;
            }
            proof {
                assert(forall|j: int| 0 <= j < vals_view(x@).len()
                    ==> val_eq(vals_view(x@)[j], vals_view(y@)[j]));
            }
            true
        },
        (Value::MapVal(x), Value::MapVal(y)) => {
            proof {
                lemma_entries_view(x@);
                lemma_entries_view(y@);
            }
            if x.len() != y.len() {
                return false;
            }
            let mut i: usize = 0;
            while i < x.len()
                invariant
                    i <= x@.len(),
                    x@.len() == y@.len(),
                    entries_view(x@).len() == x@.len(),
                    entries_view(y@).len() == y@.len(),
                    forall|j: int| 0 <= j < x@.len() ==> entries_view(x@)[j]
                        == (MapEntryView { key: x@[j].key@, val: x@[j].val.vw() }),
                    forall|j: int| 0 <= j < y@.len() ==> entries_view(y@)[j]
                        == (MapEntryView { key: y@[j].key@, val: y@[j].val.vw() }),
                    forall|j: int| 0 <= j < i ==> x@[j].key@ == y@[j].key@
                        && val_eq(x@[j].val.vw(), y@[j].val.vw()),
                    a == &Value::MapVal(*x),
                    b == &Value::MapVal(*y),
                decreases x@.len() - i,
            {
                if !string_eq(&x[i].key, &y[i].key) {
                    proof {
                        assert(entries_view(x@)[i as int].key != entries_view(y@)[i as int].key);
                    }
                    return false;
                }
                proof {
                    assert(decreases_to!(*a => (*a)->MapVal_0));
                    assert(decreases_to!(*x => x@));
                    assert(decreases_to!(x@ => x@[i as int]));
                    assert(decreases_to!(x@[i as int] => x@[i as int].val));
                }
                if !values_equal(&x[i].val, &y[i].val) {
                    proof {
                        assert(!val_eq(entries_view(x@)[i as int].val, entries_view(y@)[i as int].val));
                    }
                    return false;
                }
                i = i + 1;
            }
            proof {
                assert(forall|j: int| 0 <= j < entries_view(x@).len()
                    ==> entries_view(x@)[j].key == entries_view(y@)[j].key
                        && val_eq(entries_view(x@)[j].val, entries_view(y@)[j].val));
            }
            true
        },
        (Value::MapRef(x), Value::MapRef(y)) => *x == *y,
        _ => false,
    }
}

} // verus!
