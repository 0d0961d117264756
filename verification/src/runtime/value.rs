use vstd::prelude::*;
use crate::runtime::host::{chars_to_string, str_to_chars};
use crate::text::{dec_int, i128_to_string};

verus! {

/// A numeric value of the language. Only exact integers are
/// representable; arithmetic never coerces between numeric kinds.
#[derive(Debug, Clone, Copy, PartialEq)]
pub enum Number {
    Int(i128),
}

impl View for Number {
    type V = int;

    open spec fn view(&self) -> int {
        match self {
            Number::Int(i) => *i as int,
        }
    }
}

impl Number {
    /// Structural equality of two numbers, exactly when their models agree.
    pub fn num_eq(&self, other: &Number) -> (r: bool)
        ensures
            r == (self@ == other@),
    {
        match (self, other) {
            (Number::Int(a), Number::Int(b)) => a == b,
        }
    }

    /// The integer carried by this number.
    pub fn to_int(&self) -> (r: i128)
        ensures
            r as int == self@,
    {
        match self {
            Number::Int(i) => *i,
        }
    }
}

/// Mathematical model of a runtime value. Object contents are kept as
/// an ordered sequence of key/value pairs with distinct keys.
pub enum ValueV {
    Number(int),
    Boolean(bool),
    Str(Seq<char>),
    Array(Seq<ValueV>),
    Object(Seq<(Seq<char>, ValueV)>),
    Nil,
}

/// A runtime value of the language.
#[derive(Debug, PartialEq)]
pub enum Value {
    Number(Number),
    Boolean(bool),
    String(String),
    Array(Vec<Value>),
    Object(Vec<(String, Value)>),
    Nil,
}

/// Model of a sequence of values, element by element.
pub open spec fn view_values(s: Seq<Value>) -> Seq<ValueV>
    decreases s,
{
    if s.len() == 0 {
        Seq::empty()
    } else {
        seq![view_value(s[0])] + view_values(s.subrange(1, s.len() as int))
    }
}

/// Model of a sequence of object entries, entry by entry.
pub open spec fn view_entries(s: Seq<(String, Value)>) -> Seq<(Seq<char>, ValueV)>
    decreases s,
{
    if s.len() == 0 {
        Seq::empty()
    } else {
        seq![(s[0].0@, view_value(s[0].1))] + view_entries(s.subrange(1, s.len() as int))
    }
}

/// Model of a single value.
pub open spec fn view_value(v: Value) -> ValueV
    decreases v,
{
    match v {
        Value::Number(n) => ValueV::Number(n@),
        Value::Boolean(b) => ValueV::Boolean(b),
        Value::String(s) => ValueV::Str(s@),
        Value::Array(items) => ValueV::Array(view_values(items@)),
        Value::Object(entries) => ValueV::Object(view_entries(entries@)),
        Value::Nil => ValueV::Nil,
    }
}

impl View for Value {
    type V = ValueV;

    open spec fn view(&self) -> ValueV {
        view_value(*self)
    }
}

/// Two value sequences that agree element by element have the same model.
pub proof fn lemma_view_values_pointwise(a: Seq<Value>, b: Seq<Value>)
    requires
        a.len() == b.len(),
        forall|i: int| 0 <= i < a.len() ==> #[trigger] view_value(a[i]) == view_value(b[i]),
    ensures
        view_values(a) == view_values(b),
{
    lemma_view_values_index(a);
    lemma_view_values_index(b);
    assert(view_values(a) =~= view_values(b));
}

/// The model of a value sequence has the same length, with the model of
/// each element at the same place.
pub proof fn lemma_view_values_index(s: Seq<Value>)
    ensures
        view_values(s).len() == s.len(),
        forall|i: int| 0 <= i < s.len() ==> #[trigger] view_values(s)[i] == view_value(s[i]),
    decreases s,
{
    if s.len() > 0 {
        lemma_view_values_index(s.subrange(1, s.len() as int));
    }
}

/// The model of an entry sequence has the same length, with the model of
/// each entry at the same place.
pub proof fn lemma_view_entries_index(s: Seq<(String, Value)>)
    ensures
        view_entries(s).len() == s.len(),
        forall|i: int| 0 <= i < s.len() ==> #[trigger] view_entries(s)[i] == (s[i].0@, view_value(
            s[i].1,
        )),
    decreases s,
{
    if s.len() > 0 {
        lemma_view_entries_index(s.subrange(1, s.len() as int));
    }
}

/// Two entry sequences that agree entry by entry have the same model.
pub proof fn lemma_view_entries_pointwise(a: Seq<(String, Value)>, b: Seq<(String, Value)>)
    requires
        a.len() == b.len(),
        forall|i: int| #![all_triggers] 0 <= i < a.len() ==> a[i].0@ == b[i].0@ && view_value(
            a[i].1,
        ) == view_value(b[i].1),
    ensures
        view_entries(a) == view_entries(b),
{
    lemma_view_entries_index(a);
    lemma_view_entries_index(b);
    assert(view_entries(a) =~= view_entries(b));
}

/// The text that a value displays as.
pub open spec fn render_value(v: ValueV) -> Seq<char>
    decreases v,
{
    match v {
        ValueV::Number(n) => dec_int(n),
        ValueV::Boolean(b) => if b {
            "true"@
        } else {
            "false"@
        },
        ValueV::Str(s) => s,
        ValueV::Array(items) => seq!['['] + render_items(items) + seq![']'],
        ValueV::Object(entries) => seq!['{'] + render_obj(entries) + seq!['}'],
        ValueV::Nil => "nil"@,
    }
}

/// The text of a comma-separated list of values.
pub open spec fn render_items(items: Seq<ValueV>) -> Seq<char>
    decreases items,
{
    if items.len() == 0 {
        Seq::empty()
    } else if items.len() == 1 {
        render_value(items[0])
    } else {
        render_value(items[0]) + seq![',', ' '] + render_items(items.subrange(
            1,
            items.len() as int,
        ))
    }
}

/// The text of a comma-separated list of object entries.
pub open spec fn render_obj(entries: Seq<(Seq<char>, ValueV)>) -> Seq<char>
    decreases entries,
{
    if entries.len() == 0 {
        Seq::empty()
    } else if entries.len() == 1 {
        entries[0].0 + seq![':', ' '] + render_value(entries[0].1)
    } else {
        entries[0].0 + seq![':', ' '] + render_value(entries[0].1) + seq![',', ' '] + render_obj(
            entries.subrange(1, entries.len() as int),
        )
    }
}

/// Appending one more value to a list extends its text by a separator
/// (except at the front) and the value's own text.
proof fn lemma_render_items_push(p: Seq<ValueV>, x: ValueV)
    ensures
        render_items(p.push(x)) == render_items(p) + (if p.len() == 0 {
            render_value(x)
        } else {
            seq![',', ' '] + render_value(x)
        }),
    decreases p.len(),
{
    let q = p.push(x);
    if p.len() == 0 {
        assert(q.len() == 1);
        assert(q[0] == x);
        assert(render_items(p) + render_value(x) =~= render_value(x));
    } else {
        let pt = p.subrange(1, p.len() as int);
        assert(q.subrange(1, q.len() as int) =~= pt.push(x));
        lemma_render_items_push(pt, x);
        if p.len() == 1 {
            assert(render_items(pt) =~= Seq::<char>::empty());
            assert(render_items(q) =~= render_items(p) + (seq![',', ' '] + render_value(x)));
        } else {
            assert(render_items(q) =~= render_items(p) + (seq![',', ' '] + render_value(x)));
        }
    }
}

/// Appending one more entry to an object extends its text by a
/// separator (except at the front) and the entry's own text.
proof fn lemma_render_obj_push(p: Seq<(Seq<char>, ValueV)>, x: (Seq<char>, ValueV))
    ensures
        render_obj(p.push(x)) == render_obj(p) + (if p.len() == 0 {
            x.0 + seq![':', ' '] + render_value(x.1)
        } else {
            seq![',', ' '] + (x.0 + seq![':', ' '] + render_value(x.1))
        }),
    decreases p.len(),
{
    let q = p.push(x);
    if p.len() == 0 {
        assert(q.len() == 1);
        assert(q[0] == x);
        assert(render_obj(p) + (x.0 + seq![':', ' '] + render_value(x.1)) =~= x.0 + seq![':', ' ']
            + render_value(x.1));
    } else {
        let pt = p.subrange(1, p.len() as int);
        assert(q.subrange(1, q.len() as int) =~= pt.push(x));
        lemma_render_obj_push(pt, x);
        if p.len() == 1 {
            assert(render_obj(pt) =~= Seq::<char>::empty());
            assert(render_obj(q) =~= render_obj(p) + (seq![',', ' '] + (x.0 + seq![':', ' ']
                + render_value(x.1))));
        } else {
            assert(render_obj(q) =~= render_obj(p) + (seq![',', ' '] + (x.0 + seq![':', ' ']
                + render_value(x.1))));
        }
    }
}

/// The characters that a value displays as.
#[verifier::rlimit(100)]
#[verifier::spinoff_prover]
fn render_chars(v: &Value) -> (r: Vec<char>)
    ensures
        r@ == render_value(view_value(*v)),
    decreases *v, 1int,
{
    match v {
        Value::Number(n) => {
            let s = i128_to_string(n.to_int());
            str_to_chars(s.as_str())
        },
        Value::Boolean(b) => {
            if *b {
                str_to_chars("true")
            } else {
                str_to_chars("false")
            }
        },
        Value::String(s) => str_to_chars(s.as_str()),
        Value::Array(items) => {
            let mut out: Vec<char> = Vec::new();
            out.push('[');
            let mut i: usize = 0;
            proof {
                assert(view_values(items@).take(0) =~= Seq::<ValueV>::empty());
                assert(out@ =~= seq!['['] + render_items(view_values(items@).take(0)));
                lemma_view_values_index(items@);
            }
            while i < items.len()
                invariant
                    i <= items.len(),
                    out@ == seq!['['] + render_items(view_values(items@).take(i as int)),
                decreases items.len() - i,
            {
                proof {
                    assert(decreases_to!(*v => v->Array_0));
                    assert(decreases_to!(v->Array_0 => v->Array_0@));
                    assert(decreases_to!(v->Array_0@ => v->Array_0@[i as int]));
                    assert(decreases_to!(*v => items@[i as int]));
                }
                if i > 0 {
                    out.push(',');
                    out.push(' ');
                }
                let mut piece = render_chars(&items[i]);
                out.append(&mut piece);
                proof {
                    let pv = view_values(items@);
                    assert(pv.take(i + 1) =~= pv.take(i as int).push(pv[i as int]));
                    lemma_render_items_push(pv.take(i as int), pv[i as int]);
                    assert(out@ =~= seq!['['] + render_items(pv.take(i + 1)));
                }
                i += 1;
            }
            out.push(']');
            proof {
                assert(view_values(items@).take(items@.len() as int) =~= view_values(items@));
                assert(out@ =~= seq!['['] + render_items(view_values(items@)) + seq![']']);
            }
            out
        },
        Value::Object(entries) => {
            let mut out: Vec<char> = Vec::new();
            out.push('{');
            let mut i: usize = 0;
            proof {
                assert(view_entries(entries@).take(0) =~= Seq::<(Seq<char>, ValueV)>::empty());
                assert(out@ =~= seq!['{'] + render_obj(view_entries(entries@).take(0)));
                lemma_view_entries_index(entries@);
            }
            while i < entries.len()
                invariant
                    i <= entries.len(),
                    out@ == seq!['{'] + render_obj(view_entries(entries@).take(i as int)),
                decreases entries.len() - i,
            {
                proof {
                    assert(decreases_to!(*v => v->Object_0));
                    assert(decreases_to!(v->Object_0 => v->Object_0@));
                    assert(decreases_to!(v->Object_0@ => v->Object_0@[i as int]));
                    assert(decreases_to!(v->Object_0@[i as int] => v->Object_0@[i as int].1));
                    assert(decreases_to!(*v => entries@[i as int].1));
                }
                if i > 0 {
                    out.push(',');
                    out.push(' ');
                }
                let mut key = str_to_chars(entries[i].0.as_str());
                out.append(&mut key);
                out.push(':');
                out.push(' ');
                let mut piece = render_chars(&entries[i].1);
                out.append(&mut piece);
                proof {
                    let pv = view_entries(entries@);
                    assert(pv.take(i + 1) =~= pv.take(i as int).push(pv[i as int]));
                    lemma_render_obj_push(pv.take(i as int), pv[i as int]);
                    assert(out@ =~= seq!['{'] + render_obj(pv.take(i + 1)));
                }
                i += 1;
            }
            out.push('}');
            proof {
                assert(view_entries(entries@).take(entries@.len() as int) =~= view_entries(
                    entries@,
                ));
                assert(out@ =~= seq!['{'] + render_obj(view_entries(entries@)) + seq!['}']);
            }
            out
        },
        Value::Nil => str_to_chars("nil"),
    }
}

impl Value {
    /// The text that this value displays as.
    pub fn to_display_string(&self) -> (r: String)
        ensures
            r@ == render_value(self@),
    {
        let cs = render_chars(self);
        chars_to_string(&cs)
    }
}

/// Appending a value appends its model.
pub proof fn lemma_view_values_push(s: Seq<Value>, v: Value)
    ensures
        view_values(s.push(v)) == view_values(s).push(view_value(v)),
{
    lemma_view_values_index(s.push(v));
    lemma_view_values_index(s);
    assert(view_values(s.push(v)) =~= view_values(s).push(view_value(v)));
}

/// Clones a sequence of values, preserving its model.
pub fn clone_values(items: &Vec<Value>) -> (r: Vec<Value>)
    ensures
        view_values(r@) == view_values(items@),
{
    let mut out: Vec<Value> = Vec::new();
    let mut i: usize = 0;
    while i < items.len()
        invariant
            i <= items.len(),
            out@.len() == i,
            forall|j: int| 0 <= j < i ==> #[trigger] view_value(out@[j]) == view_value(items@[j]),
        decreases items.len() - i,
    {
        let c = items[i].clone();
        out.push(c);
        i += 1;
    }
    proof {
        lemma_view_values_pointwise(out@, items@);
    }
    out
}

impl Clone for Value {
    /// Cloning a value preserves its model.
    #[verifier::loop_isolation(false)]
    fn clone(&self) -> (res: Self)
        ensures
            res@ == self@,
        decreases *self,
    {
        match self {
            Value::Number(n) => Value::Number(*n),
            Value::Boolean(b) => Value::Boolean(*b),
            Value::String(s) => Value::String(s.clone()),
            Value::Array(items) => {
                let mut out: Vec<Value> = Vec::new();
                let mut i: usize = 0;
                while i < items.len()
                    invariant
                        i <= items.len(),
                        out@.len() == i,
                        forall|j: int| 0 <= j < i ==> #[trigger] view_value(out@[j]) == view_value(
                            items@[j],
                        ),
                    decreases items.len() - i,
                {
                    proof {
                        assert(decreases_to!(*self => self->Array_0));
                        assert(decreases_to!(self->Array_0 => self->Array_0@));
                        assert(decreases_to!(self->Array_0@ => self->Array_0@[i as int]));
                        assert(decreases_to!(*self => items@[i as int]));
                    }
                    let c = items[i].clone();
                    out.push(c);
                    i += 1;
                }
                proof {
                    lemma_view_values_pointwise(out@, items@);
                }
                Value::Array(out)
            },
            Value::Object(entries) => {
                let mut out: Vec<(String, Value)> = Vec::new();
                let mut i: usize = 0;
                while i < entries.len()
                    invariant
                        i <= entries.len(),
                        out@.len() == i,
                        forall|j: int| #![all_triggers] 0 <= j < i ==> out@[j].0@ == entries@[j].0@
                            && view_value(out@[j].1) == view_value(entries@[j].1),
                    decreases entries.len() - i,
                {
                    proof {
                        assert(decreases_to!(*self => self->Object_0));
                        assert(decreases_to!(self->Object_0 => self->Object_0@));
                        assert(decreases_to!(self->Object_0@ => self->Object_0@[i as int]));
                        assert(decreases_to!(self->Object_0@[i as int] => self->Object_0@[
                            i as int
                        ].1));
                        assert(decreases_to!(*self => entries@[i as int].1));
                    }
                    let k = entries[i].0.clone();
                    let v = entries[i].1.clone();
                    out.push((k, v));
                    i += 1;
                }
                proof {
                    lemma_view_entries_pointwise(out@, entries@);
                }
                Value::Object(out)
            },
            Value::Nil => Value::Nil,
        }
    }
}

} // verus!
