use vstd::prelude::*;
use vstd::string::StringExecFns;
use crate::runtime::error::{InterpreterError, InterpreterErrorV};
use crate::runtime::function::BuiltinFunction;
use crate::runtime::host::{chars_to_string, random_i128, random_i128_in, read_input_line,
    str_to_chars, write_line};
use crate::runtime::value::{clone_values, lemma_view_values_index, view_value, view_values, Number,
    Value, ValueV};
use crate::text::{parse_i128, parse_int_spec};

verus! {

/// What a call that does not touch the environment comes to: a value,
/// an error, or an answer of the host (input, randomness) of which
/// nothing is claimed.
pub enum CallResultV {
    Val(ValueV),
    Fail(InterpreterErrorV),
    Host,
}

/// What each built-in function returns for given argument values.
/// `print` writes and yields nil; `input` and `random` consult the
/// host, so their successful results are not determined here.
pub open spec fn builtin_call_s(b: BuiltinFunction, args: Seq<ValueV>) -> CallResultV {
    match b {
        BuiltinFunction::Print => CallResultV::Val(ValueV::Nil),
        BuiltinFunction::Input => CallResultV::Host,
        BuiltinFunction::Push => if args.len() == 2 && args[0] is Array {
            CallResultV::Val(ValueV::Array(args[0]->Array_0.push(args[1])))
        } else {
            CallResultV::Fail(InterpreterErrorV::TypeMismatch)
        },
        BuiltinFunction::Pop => if args.len() >= 1 && args[0] is Array {
            if args[0]->Array_0.len() > 0 {
                CallResultV::Val(args[0]->Array_0.last())
            } else {
                CallResultV::Fail(InterpreterErrorV::InvalidOperation)
            }
        } else {
            CallResultV::Fail(InterpreterErrorV::TypeMismatch)
        },
        BuiltinFunction::Int => if args.len() >= 1 && args[0] is Number {
            CallResultV::Val(ValueV::Number(args[0]->Number_0))
        } else if args.len() >= 1 && args[0] is Str {
            match parse_int_spec(args[0]->Str_0) {
                Some(v) => CallResultV::Val(ValueV::Number(v)),
                None => CallResultV::Fail(InterpreterErrorV::InvalidOperation),
            }
        } else {
            CallResultV::Fail(InterpreterErrorV::TypeMismatch)
        },
        BuiltinFunction::Vector => CallResultV::Val(ValueV::Array(args)),
        BuiltinFunction::Random => if args.len() == 0 {
            CallResultV::Host
        } else if args.len() == 1 {
            if args[0] is Number {
                if args[0]->Number_0 <= 0 {
                    CallResultV::Fail(InterpreterErrorV::InvalidOperation)
                } else {
                    CallResultV::Host
                }
            } else {
                CallResultV::Fail(InterpreterErrorV::InvalidOperation)
            }
        } else if args.len() == 2 {
            if args[0] is Number && args[1] is Number {
                if args[0]->Number_0 >= args[1]->Number_0 {
                    CallResultV::Fail(InterpreterErrorV::InvalidOperation)
                } else {
                    CallResultV::Host
                }
            } else {
                CallResultV::Fail(InterpreterErrorV::InvalidOperation)
            }
        } else {
            CallResultV::Fail(InterpreterErrorV::InvalidOperation)
        },
    }
}

impl BuiltinFunction {
    /// Runs this built-in on the given arguments. The result is
    /// exactly what `builtin_call_s` says, except where the host
    /// decides.
    pub fn call(&self, args: Vec<Value>) -> (r: Result<Value, InterpreterError>)
        ensures
            match builtin_call_s(*self, view_values(args@)) {
                CallResultV::Val(v) => r matches Ok(x) && x@ == v,
                CallResultV::Fail(e) => r matches Err(x) && x@ == e,
                CallResultV::Host => true,
            },
    {
        proof {
            lemma_view_values_index(args@);
        }
        match self {
            BuiltinFunction::Print => builtin_print(args),
            BuiltinFunction::Input => builtin_input(),
            BuiltinFunction::Push => builtin_push(args),
            BuiltinFunction::Pop => builtin_pop(args),
            BuiltinFunction::Int => builtin_int(args),
            BuiltinFunction::Vector => Ok(Value::Array(args)),
            BuiltinFunction::Random => builtin_random(args),
        }
    }
}

/// Writes all arguments, space-separated, then a newline; yields nil.
fn builtin_print(args: Vec<Value>) -> (r: Result<Value, InterpreterError>)
    ensures
        r matches Ok(x) && x@ == ValueV::Nil,
{
    let mut line = String::new();
    let mut i: usize = 0;
    while i < args.len()
        decreases args.len() - i,
    {
        let piece = args[i].to_display_string();
        line.append(piece.as_str());
        line.append(" ");
        i += 1;
    }
    write_line(line.as_str());
    Ok(Value::Nil)
}

/// Reads one line from the host and yields it with surrounding ASCII
/// whitespace removed.
fn builtin_input() -> (r: Result<Value, InterpreterError>) {
    let line = read_input_line();
    Ok(Value::String(trim_ascii(line.as_str())))
}

/// The text with leading and trailing ASCII whitespace removed.
fn trim_ascii(s: &str) -> String {
    let cs = str_to_chars(s);
    let n = cs.len();
    let mut lo: usize = 0;
    while lo < n && is_ascii_space(cs[lo])
        invariant
            lo <= n,
            n == cs@.len(),
        decreases n - lo,
    {
        lo += 1;
    }
    let mut hi: usize = n;
    while hi > lo && is_ascii_space(cs[hi - 1])
        invariant
            lo <= hi <= n,
        decreases hi,
    {
        hi -= 1;
    }
    let mut out: Vec<char> = Vec::new();
    let mut i: usize = lo;
    while i < hi
        invariant
            lo <= i <= hi <= n,
            n == cs@.len(),
        decreases hi - i,
    {
        out.push(cs[i]);
        i += 1;
    }
    chars_to_string(&out)
}

/// Is `c` a space, tab, carriage return or newline?
fn is_ascii_space(c: char) -> bool {
    c == ' ' || c == '\t' || c == '\r' || c == '\n'
}

/// A new array with the item appended; the original is not changed.
fn builtin_push(args: Vec<Value>) -> (r: Result<Value, InterpreterError>)
    ensures
        match builtin_call_s(BuiltinFunction::Push, view_values(args@)) {
            CallResultV::Val(v) => r matches Ok(x) && x@ == v,
            CallResultV::Fail(e) => r matches Err(x) && x@ == e,
            CallResultV::Host => true,
        },
{
    proof {
        lemma_view_values_index(args@);
    }
    if args.len() == 2 {
        match &args[0] {
            Value::Array(items) => {
                let mut out = clone_values(items);
                proof {
                    lemma_view_values_index(out@);
                    lemma_view_values_index(items@);
                }
                let item = args[1].clone();
                out.push(item);
                proof {
                    lemma_view_values_index(out@);
                    assert(view_values(out@) =~= view_values(items@).push(view_value(args@[1])));
                }
                Ok(Value::Array(out))
            },
            _ => Err(
                InterpreterError::TypeMismatch("push() expects a vector and an item".to_owned()),
            ),
        }
    } else {
        Err(InterpreterError::TypeMismatch("push() expects a vector and an item".to_owned()))
    }
}

/// The last item of the array; popping never changes the original.
fn builtin_pop(args: Vec<Value>) -> (r: Result<Value, InterpreterError>)
    ensures
        match builtin_call_s(BuiltinFunction::Pop, view_values(args@)) {
            CallResultV::Val(v) => r matches Ok(x) && x@ == v,
            CallResultV::Fail(e) => r matches Err(x) && x@ == e,
            CallResultV::Host => true,
        },
{
    proof {
        lemma_view_values_index(args@);
    }
    if args.len() >= 1 {
        match &args[0] {
            Value::Array(items) => {
                if items.len() > 0 {
                    proof {
                        lemma_view_values_index(items@);
                    }
                    Ok(items[items.len() - 1].clone())
                } else {
                    Err(InterpreterError::InvalidOperation("Cannot pop from empty vector".to_owned()))
                }
            },
            _ => Err(InterpreterError::TypeMismatch("pop() expects a vector".to_owned())),
        }
    } else {
        Err(InterpreterError::TypeMismatch("pop() expects a vector".to_owned()))
    }
}

/// The integer a number or a piece of text denotes.
fn builtin_int(args: Vec<Value>) -> (r: Result<Value, InterpreterError>)
    ensures
        match builtin_call_s(BuiltinFunction::Int, view_values(args@)) {
            CallResultV::Val(v) => r matches Ok(x) && x@ == v,
            CallResultV::Fail(e) => r matches Err(x) && x@ == e,
            CallResultV::Host => true,
        },
{
    proof {
        lemma_view_values_index(args@);
    }
    if args.len() >= 1 {
        match &args[0] {
            Value::Number(n) => Ok(Value::Number(*n)),
            Value::String(s) => match parse_i128(s.as_str()) {
                Some(v) => Ok(Value::Number(Number::Int(v))),
                None => Err(
                    InterpreterError::InvalidOperation("int() failed: invalid number".to_owned()),
                ),
            },
            _ => Err(InterpreterError::TypeMismatch("int() expects a number or a string".to_owned())),
        }
    } else {
        Err(InterpreterError::TypeMismatch("int() expects a number or a string".to_owned()))
    }
}

/// A sample of the host's randomness: the full range with no
/// arguments, `[0, n)` with one, `[a, b)` with two.
fn builtin_random(args: Vec<Value>) -> (r: Result<Value, InterpreterError>)
    ensures
        match builtin_call_s(BuiltinFunction::Random, view_values(args@)) {
            CallResultV::Val(v) => r matches Ok(x) && x@ == v,
            CallResultV::Fail(e) => r matches Err(x) && x@ == e,
            CallResultV::Host => true,
        },
{
    proof {
        lemma_view_values_index(args@);
    }
    if args.len() == 0 {
        Ok(Value::Number(Number::Int(random_i128())))
    } else if args.len() == 1 {
        match &args[0] {
            Value::Number(Number::Int(n)) => {
                if *n <= 0 {
                    Err(InterpreterError::InvalidOperation("random() range is empty".to_owned()))
                } else {
                    Ok(Value::Number(Number::Int(random_i128_in(0, *n))))
                }
            },
            _ => Err(
                InterpreterError::InvalidOperation(
                    "random() expects 0, 1 or 2 arguments".to_owned(),
                ),
            ),
        }
    } else if args.len() == 2 {
        match (&args[0], &args[1]) {
            (Value::Number(Number::Int(a)), Value::Number(Number::Int(b))) => {
                if *a >= *b {
                    Err(InterpreterError::InvalidOperation("random() range is empty".to_owned()))
                } else {
                    Ok(Value::Number(Number::Int(random_i128_in(*a, *b))))
                }
            },
            _ => Err(
                InterpreterError::InvalidOperation(
                    "random() expects 0, 1 or 2 arguments".to_owned(),
                ),
            ),
        }
    } else {
        Err(InterpreterError::InvalidOperation("random() expects 0, 1 or 2 arguments".to_owned()))
    }
}

} // verus!
