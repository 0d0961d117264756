use vstd::prelude::*;
use crate::parser::ast::{view_names, Expr};
use crate::runtime::function::{BuiltinFunction, Function, FunctionV, UserFunction};
use crate::runtime::host::str_eq;
use crate::runtime::value::{Value, ValueV};

verus! {

/// What a name can be bound to: a variable holding a value, or a
/// callable function.
#[derive(Debug, PartialEq)]
pub enum EnvironmentValue {
    Variable(Value),
    Function(Function),
}

/// Mathematical model of a binding.
pub enum BindingV {
    Variable(ValueV),
    Function(FunctionV),
}

impl View for EnvironmentValue {
    type V = BindingV;

    open spec fn view(&self) -> BindingV {
        match self {
            EnvironmentValue::Variable(v) => BindingV::Variable(v@),
            EnvironmentValue::Function(f) => BindingV::Function(f@),
        }
    }
}

impl Clone for EnvironmentValue {
    /// Cloning a binding preserves its model.
    fn clone(&self) -> (res: Self)
        ensures
            res@ == self@,
    {
        match self {
            EnvironmentValue::Variable(v) => EnvironmentValue::Variable(v.clone()),
            EnvironmentValue::Function(f) => EnvironmentValue::Function(f.clone()),
        }
    }
}

/// No two entries of the list bind the same name.
pub open spec fn keys_unique(s: Seq<(String, EnvironmentValue)>) -> bool {
    forall|i: int, j: int| 0 <= i < j < s.len() ==> s[i].0@ != s[j].0@
}

/// The map that an association list denotes; later entries win.
pub open spec fn assoc_view(s: Seq<(String, EnvironmentValue)>) -> Map<Seq<char>, BindingV>
    decreases s,
{
    if s.len() == 0 {
        Map::empty()
    } else {
        assoc_view(s.drop_last()).insert(s.last().0@, s.last().1@)
    }
}

/// Some entry of the list binds the name `k`.
pub open spec fn has_key(s: Seq<(String, EnvironmentValue)>, k: Seq<char>) -> bool {
    exists|i: int| 0 <= i < s.len() && s[i].0@ == k
}

/// A name is in the denoted map exactly when some entry binds it.
pub proof fn lemma_assoc_dom(s: Seq<(String, EnvironmentValue)>)
    ensures
        forall|k: Seq<char>| #[trigger] assoc_view(s).dom().contains(k) <==> has_key(s, k),
    decreases s.len(),
{
    if s.len() > 0 {
        let t = s.drop_last();
        lemma_assoc_dom(t);
        assert forall|k: Seq<char>| #[trigger] assoc_view(s).dom().contains(k) implies has_key(
            s,
            k,
        ) by {
            if k == s.last().0@ {
                assert(s[s.len() - 1].0@ == k);
            } else {
                assert(assoc_view(t).dom().contains(k));
                assert(has_key(t, k));
                let i = choose|i: int| 0 <= i < t.len() && t[i].0@ == k;
                assert(t[i] == s[i]);
                assert(s[i].0@ == k);
            }
        }
        assert forall|k: Seq<char>| has_key(s, k) implies #[trigger] assoc_view(s).dom().contains(
            k,
        ) by {
            let i = choose|i: int| 0 <= i < s.len() && s[i].0@ == k;
            if i < s.len() - 1 {
                assert(t[i] == s[i]);
                assert(has_key(t, k));
                assert(assoc_view(t).dom().contains(k));
            }
        }
    }
}

/// With unique keys, the denoted map sends each bound name to the
/// binding of its entry.
pub proof fn lemma_assoc_get(s: Seq<(String, EnvironmentValue)>, i: int)
    requires
        keys_unique(s),
        0 <= i < s.len(),
    ensures
        assoc_view(s).dom().contains(s[i].0@),
        assoc_view(s)[s[i].0@] == s[i].1@,
    decreases s.len(),
{
    let t = s.drop_last();
    if i == s.len() - 1 {
        lemma_assoc_dom(s);
    } else {
        lemma_assoc_get(t, i);
        assert(s[i].0@ != s.last().0@);
    }
}

/// With unique keys, removing an entry removes exactly its name from
/// the denoted map, and keys stay unique.
pub proof fn lemma_assoc_remove(s: Seq<(String, EnvironmentValue)>, i: int)
    requires
        keys_unique(s),
        0 <= i < s.len(),
    ensures
        keys_unique(s.remove(i)),
        assoc_view(s.remove(i)) == assoc_view(s).remove(s[i].0@),
    decreases s.len(),
{
    let t = s.drop_last();
    if i == s.len() - 1 {
        assert(s.remove(i) =~= t);
        lemma_assoc_dom(t);
        assert(!assoc_view(t).dom().contains(s[i].0@));
        assert(assoc_view(t) =~= assoc_view(s).remove(s[i].0@));
    } else {
        lemma_assoc_remove(t, i);
        assert(s.remove(i).drop_last() =~= t.remove(i));
        assert(s.remove(i).last() == s.last());
        assert(s.remove(i).len() == s.len() - 1);
        assert(assoc_view(s.remove(i)) == assoc_view(t.remove(i)).insert(
            s.last().0@,
            s.last().1@,
        ));
        assert(s[i].0@ != s.last().0@);
        assert(assoc_view(t).remove(s[i].0@).insert(s.last().0@, s.last().1@) =~= assoc_view(
            t,
        ).insert(s.last().0@, s.last().1@).remove(s[i].0@));
    }
}

/// Entry lists that agree entry by entry denote the same map.
pub proof fn lemma_assoc_pointwise(
    a: Seq<(String, EnvironmentValue)>,
    b: Seq<(String, EnvironmentValue)>,
)
    requires
        a.len() == b.len(),
        forall|i: int| #![all_triggers] 0 <= i < a.len() ==> a[i].0@ == b[i].0@ && a[i].1@
            == b[i].1@,
    ensures
        assoc_view(a) == assoc_view(b),
    decreases a.len(),
{
    if a.len() > 0 {
        lemma_assoc_pointwise(a.drop_last(), b.drop_last());
        assert(a.last().0@ == b.last().0@ && a.last().1@ == b.last().1@);
    }
}

/// The bindings pre-registered in every fresh environment: the
/// built-in function table.
pub open spec fn initial_env() -> Map<Seq<char>, BindingV> {
    Map::empty().insert("print"@, BindingV::Function(FunctionV::Builtin(BuiltinFunction::Print)))
        .insert("push"@, BindingV::Function(FunctionV::Builtin(BuiltinFunction::Push))).insert(
        "pop"@,
        BindingV::Function(FunctionV::Builtin(BuiltinFunction::Pop)),
    ).insert("input"@, BindingV::Function(FunctionV::Builtin(BuiltinFunction::Input))).insert(
        "vector"@,
        BindingV::Function(FunctionV::Builtin(BuiltinFunction::Vector)),
    ).insert("int"@, BindingV::Function(FunctionV::Builtin(BuiltinFunction::Int))).insert(
        "random"@,
        BindingV::Function(FunctionV::Builtin(BuiltinFunction::Random)),
    )
}

/// The execution environment: a single flat mapping from names to
/// bindings. Nested scope is simulated by cloning the whole mapping,
/// never by parent pointers, so mutation inside a nested scope is
/// invisible outside it.
#[derive(Debug)]
pub struct Environment {
    pub(crate) values: Vec<(String, EnvironmentValue)>,
}

impl View for Environment {
    type V = Map<Seq<char>, BindingV>;

    closed spec fn view(&self) -> Map<Seq<char>, BindingV> {
        assoc_view(self.values@)
    }
}

impl Environment {
    /// The environment's entry list binds no name twice.
    pub closed spec fn wf(&self) -> bool {
        keys_unique(self.values@)
    }

    /// Index of the entry binding `name`, if any.
    fn find(&self, name: &str) -> (r: Option<usize>)
        ensures
            match r {
                Some(i) => i < self.values@.len() && self.values@[i as int].0@ == name@,
                None => !has_key(self.values@, name@),
            },
    {
        let n = self.values.len();
        let mut i: usize = 0;
        while i < n
            invariant
                i <= n,
                n == self.values@.len(),
                forall|j: int| 0 <= j < i ==> self.values@[j].0@ != name@,
            decreases n - i,
        {
            if str_eq(self.values[i].0.as_str(), name) {
                return Some(i);
            }
            i += 1;
        }
        None
    }

    /// A fresh environment holding exactly the built-in functions.
    pub fn new() -> (res: Self)
        ensures
            res.wf(),
            res@ == initial_env(),
    {
        let mut values: Vec<(String, EnvironmentValue)> = Vec::new();
        values.push(
            ("print".to_owned(), EnvironmentValue::Function(Function::Builtin(
                BuiltinFunction::Print,
            ))),
        );
        values.push(
            ("push".to_owned(), EnvironmentValue::Function(Function::Builtin(
                BuiltinFunction::Push,
            ))),
        );
        values.push(
            ("pop".to_owned(), EnvironmentValue::Function(Function::Builtin(BuiltinFunction::Pop))),
        );
        values.push(
            ("input".to_owned(), EnvironmentValue::Function(Function::Builtin(
                BuiltinFunction::Input,
            ))),
        );
        values.push(
            ("vector".to_owned(), EnvironmentValue::Function(Function::Builtin(
                BuiltinFunction::Vector,
            ))),
        );
        values.push(
            ("int".to_owned(), EnvironmentValue::Function(Function::Builtin(BuiltinFunction::Int))),
        );
        values.push(
            ("random".to_owned(), EnvironmentValue::Function(Function::Builtin(
                BuiltinFunction::Random,
            ))),
        );
        proof {
            reveal_strlit("print");
            reveal_strlit("push");
            reveal_strlit("pop");
            reveal_strlit("input");
            reveal_strlit("vector");
            reveal_strlit("int");
            reveal_strlit("random");
            assert(values@.len() == 7);
            assert(values@[0].0@ == "print"@);
            assert(values@[1].0@ == "push"@);
            assert(values@[2].0@ == "pop"@);
            assert(values@[3].0@ == "input"@);
            assert(values@[4].0@ == "vector"@);
            assert(values@[5].0@ == "int"@);
            assert(values@[6].0@ == "random"@);
            assert("print"@[0] == 'p' && "input"@[0] == 'i');
            assert("pop"@[0] == 'p' && "int"@[0] == 'i');
            assert("vector"@[0] == 'v' && "random"@[0] == 'r');
            assert("print"@ != "input"@);
            assert("pop"@ != "int"@);
            assert("vector"@ != "random"@);
            assert(keys_unique(values@));
            reveal_with_fuel(assoc_view, 9);
            assert(assoc_view(values@) =~= initial_env());
        }
        Self { values }
    }

    /// Replaces any binding of `name` with a new entry.
    fn set_entry(&mut self, name: String, binding: EnvironmentValue)
        requires
            old(self).wf(),
        ensures
            final(self).wf(),
            final(self)@ == old(self)@.insert(name@, binding@),
    {
        let found = self.find(name.as_str());
        match found {
            Some(i) => {
                proof {
                    lemma_assoc_remove(self.values@, i as int);
                }
                self.values.remove(i);
            },
            None => {},
        }
        proof {
            lemma_assoc_dom(self.values@);
        }
        assert(!has_key(self.values@, name@));
        let ghost pre = self.values@;
        self.values.push((name, binding));
        proof {
            assert(self.values@.drop_last() =~= pre);
            assert(keys_unique(self.values@)) by {
                assert(forall|j: int| 0 <= j < pre.len() ==> #[trigger] self.values@[j] == pre[j]);
            }
            assert(self@ =~= old(self)@.insert(self.values@.last().0@, self.values@.last().1@));
        }
    }

    /// Binds `name` to a variable holding `value`, overwriting any
    /// prior binding of that name.
    pub fn define(&mut self, name: String, value: Value)
        requires
            old(self).wf(),
        ensures
            final(self).wf(),
            final(self)@ == old(self)@.insert(name@, BindingV::Variable(value@)),
    {
        self.set_entry(name, EnvironmentValue::Variable(value));
    }

    /// Binds `name` to a user function, overwriting any prior binding
    /// of that name.
    pub fn define_function(&mut self, name: String, params: Vec<String>, body: Expr)
        requires
            old(self).wf(),
        ensures
            final(self).wf(),
            final(self)@ == old(self)@.insert(
                name@,
                BindingV::Function(FunctionV::User { params: view_names(params@), body: body@ }),
            ),
    {
        self.set_entry(
            name,
            EnvironmentValue::Function(Function::User(UserFunction { params, body })),
        );
    }

    /// The value of the variable bound to `name`, if `name` is bound
    /// to a variable at all.
    pub fn get(&self, name: &str) -> (r: Option<Value>)
        requires
            self.wf(),
        ensures
            match r {
                Some(v) => self@.dom().contains(name@) && (self@[name@] matches
                BindingV::Variable(x) && v@ == x),
                None => !(self@.dom().contains(name@) && self@[name@] is Variable),
            },
    {
        let found = self.find(name);
        match found {
            Some(i) => {
                proof {
                    lemma_assoc_get(self.values@, i as int);
                }
                match &self.values[i].1 {
                    EnvironmentValue::Variable(v) => Some(v.clone()),
                    EnvironmentValue::Function(_) => None,
                }
            },
            None => {
                proof {
                    lemma_assoc_dom(self.values@);
                }
                None
            },
        }
    }

    /// The callable bound to `name`, if `name` is bound to a function
    /// at all.
    pub fn get_function(&self, name: &str) -> (r: Option<Function>)
        requires
            self.wf(),
        ensures
            match r {
                Some(f) => self@.dom().contains(name@) && (self@[name@] matches
                BindingV::Function(g) && f@ == g),
                None => !(self@.dom().contains(name@) && self@[name@] is Function),
            },
    {
        let found = self.find(name);
        match found {
            Some(i) => {
                proof {
                    lemma_assoc_get(self.values@, i as int);
                }
                match &self.values[i].1 {
                    EnvironmentValue::Function(f) => Some(f.clone()),
                    EnvironmentValue::Variable(_) => None,
                }
            },
            None => {
                proof {
                    lemma_assoc_dom(self.values@);
                }
                None
            },
        }
    }
}

/// The bindings a function call starts from: the built-ins, plus
/// every function binding of the caller. Caller variables are not
/// captured; a caller function shadows a built-in of the same name.
pub open spec fn call_base(caller: Map<Seq<char>, BindingV>) -> Map<Seq<char>, BindingV> {
    Map::new(
        |k: Seq<char>|
            initial_env().dom().contains(k) || (caller.dom().contains(k)
                && caller[k] is Function),
        |k: Seq<char>|
            if caller.dom().contains(k) && caller[k] is Function {
                caller[k]
            } else {
                initial_env()[k]
            },
    )
}

/// The built-ins plus the function bindings among the first `i`
/// entries of the list, in order.
spec fn funcs_fold(s: Seq<(String, EnvironmentValue)>, i: int) -> Map<Seq<char>, BindingV>
    decreases i,
{
    if i <= 0 {
        initial_env()
    } else {
        let m = funcs_fold(s, i - 1);
        if s[i - 1].1@ is Function {
            m.insert(s[i - 1].0@, s[i - 1].1@)
        } else {
            m
        }
    }
}

/// Folding the function bindings of a unique-keyed list gives exactly
/// the call base of the map it denotes.
proof fn lemma_funcs_fold(s: Seq<(String, EnvironmentValue)>, i: int)
    requires
        keys_unique(s),
        0 <= i <= s.len(),
    ensures
        funcs_fold(s, i) == call_base(assoc_view(s.take(i))),
    decreases i,
{
    if i == 0 {
        assert(s.take(0) =~= Seq::<(String, EnvironmentValue)>::empty());
        assert(funcs_fold(s, 0) =~= call_base(assoc_view(s.take(0))));
    } else {
        lemma_funcs_fold(s, i - 1);
        let prev = assoc_view(s.take(i - 1));
        let k = s[i - 1].0@;
        let b = s[i - 1].1@;
        assert(s.take(i).drop_last() =~= s.take(i - 1));
        assert(s.take(i).last() == s[i - 1]);
        assert(assoc_view(s.take(i)) == prev.insert(k, b));
        assert(keys_unique(s.take(i - 1))) by {
            assert(forall|a: int, bb: int| 0 <= a < bb < i - 1 ==> s.take(i - 1)[a] == s[a]
                && s.take(i - 1)[bb] == s[bb]);
        }
        lemma_assoc_dom(s.take(i - 1));
        assert(!has_key(s.take(i - 1), k)) by {
            if has_key(s.take(i - 1), k) {
                let j = choose|j: int| 0 <= j < s.take(i - 1).len() && #[trigger] s.take(
                    i - 1,
                )[j].0@ == k;
                assert(s[j].0@ == k);
            }
        }
        assert(!prev.dom().contains(k));
        if b is Function {
            assert(call_base(prev.insert(k, b)) =~= call_base(prev).insert(k, b));
        } else {
            assert(call_base(prev.insert(k, b)) =~= call_base(prev));
        }
    }
}

impl Environment {
    /// A fresh scope for a function call: the built-ins plus this
    /// environment's function bindings, with no variables.
    pub fn function_scope(&self) -> (r: Environment)
        requires
            self.wf(),
        ensures
            r.wf(),
            r@ == call_base(self@),
    {
        let mut out = Environment::new();
        let n = self.values.len();
        let mut i: usize = 0;
        while i < n
            invariant
                i <= n,
                n == self.values@.len(),
                out.wf(),
                out@ == funcs_fold(self.values@, i as int),
            decreases n - i,
        {
            let is_function = match &self.values[i].1 {
                EnvironmentValue::Function(_) => true,
                EnvironmentValue::Variable(_) => false,
            };
            if is_function {
                let k = self.values[i].0.clone();
                let b = self.values[i].1.clone();
                out.set_entry(k, b);
            }
            i += 1;
        }
        proof {
            lemma_funcs_fold(self.values@, n as int);
            assert(self.values@.take(n as int) =~= self.values@);
        }
        out
    }
}

impl Clone for Environment {
    /// Cloning an environment preserves its bindings; this is how a
    /// nested lexical scope is opened.
    fn clone(&self) -> (res: Self)
        ensures
            res@ == self@,
            self.wf() ==> res.wf(),
    {
        let mut out: Vec<(String, EnvironmentValue)> = Vec::new();
        let n = self.values.len();
        let mut i: usize = 0;
        while i < n
            invariant
                i <= n,
                n == self.values@.len(),
                out@.len() == i,
                forall|j: int| #![all_triggers] 0 <= j < i ==> out@[j].0@ == self.values@[j].0@
                    && out@[j].1@ == self.values@[j].1@,
            decreases n - i,
        {
            let k = self.values[i].0.clone();
            let v = self.values[i].1.clone();
            out.push((k, v));
            i += 1;
        }
        proof {
            lemma_assoc_pointwise(out@, self.values@);
        }
        Environment { values: out }
    }
}

impl Default for Environment {
    /// The default environment is a fresh one.
    fn default() -> (res: Self)
        ensures
            res.wf(),
            res@ == initial_env(),
    {
        Self::new()
    }
}

} // verus!
