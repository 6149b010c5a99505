//! What every value offers: coercions, hashing, equality and ordering.
use crate::function::FunctionType;
use crate::value::{kind_name, Value, ValueError, ValueModel};
use core::cmp::Ordering;
use vstd::prelude::*;
use vstd::utf8::encode_utf8;

verus! {

/// Truthiness: empty, zero and `None` are false.
pub open spec fn truth(v: Value) -> bool {
    match v {
        Value::NoneType => false,
        Value::Bool(b) => b,
        Value::Int(i) => i != 0,
        Value::Str(s) => s@.len() > 0,
        Value::List { items, .. } => items@.len() > 0,
        Value::Dict { entries, .. } => entries@.len() > 0,
        Value::Function(..) => true,
        Value::BoundMethod(..) => true,
    }
}

/// The integer a value stands for: a boolean is 0 or 1, an integer itself.
pub open spec fn int_of(v: ValueModel) -> Option<int> {
    match v {
        ValueModel::Bool(b) => Some(if b { 1int } else { 0int }),
        ValueModel::Int(i) => Some(i),
        _ => None,
    }
}

/// A hash of a byte string.
pub open spec fn bytes_hash(b: Seq<u8>) -> u64
    decreases b.len(),
{
    if b.len() == 0 {
        0
    } else {
        ((bytes_hash(b.drop_last()) as int * 31 + b.last() as int) % 0x1_0000_0000_0000_0000) as u64
    }
}

/// The hash of a value; `None` for a kind that has none.
pub open spec fn hash_of(v: ValueModel) -> Option<u64> {
    match v {
        ValueModel::NoneType => Some(0),
        ValueModel::Bool(b) => Some(if b { 1u64 } else { 0u64 }),
        ValueModel::Int(i) => Some(i as u64),
        ValueModel::Str(s) => Some(bytes_hash(encode_utf8(s))),
        _ => None,
    }
}

/// Equality of two values: by content for values of one kind, by identity
/// for functions; values of different kinds are never equal.
pub open spec fn values_equal(a: ValueModel, b: ValueModel) -> bool
    decreases a,
{
    match (a, b) {
        (ValueModel::NoneType, ValueModel::NoneType) => true,
        (ValueModel::Bool(x), ValueModel::Bool(y)) => x == y,
        (ValueModel::Int(x), ValueModel::Int(y)) => x == y,
        (ValueModel::Str(x), ValueModel::Str(y)) => x == y,
        (ValueModel::List(xs, _), ValueModel::List(ys, _)) => xs.len() == ys.len() && items_equal(
            xs,
            ys,
            xs.len() as int,
        ),
        (ValueModel::Dict(xs, _), ValueModel::Dict(ys, _)) => xs.len() == ys.len() && entries_equal(
            xs,
            ys,
            xs.len() as int,
        ),
        (ValueModel::Function(f, _), ValueModel::Function(g, _)) => same_type(f, g),
        (ValueModel::BoundMethod(m, s), ValueModel::BoundMethod(m2, s2)) => values_equal(*m, *m2)
            && values_equal(*s, *s2),
        _ => false,
    }
}

/// Two function types name the same function.
pub open spec fn same_type(a: FunctionType, b: FunctionType) -> bool {
    match (a, b) {
        (FunctionType::Native(x), FunctionType::Native(y)) => x@ == y@,
        (FunctionType::Def(x, m), FunctionType::Def(y, n)) => x@ == y@ && m@ == n@,
        _ => false,
    }
}

/// The first `n` items of two lists are pairwise equal.
pub open spec fn items_equal(xs: Seq<ValueModel>, ys: Seq<ValueModel>, n: int) -> bool
    decreases xs, n,
{
    if n <= 0 || n > xs.len() || n > ys.len() {
        n == 0
    } else {
        items_equal(xs, ys, n - 1) && values_equal(xs[n - 1], ys[n - 1])
    }
}

/// The first `n` entries of two dictionaries, in insertion order, are
/// pairwise equal.
pub open spec fn entries_equal(
    xs: Seq<(ValueModel, ValueModel)>,
    ys: Seq<(ValueModel, ValueModel)>,
    n: int,
) -> bool
    decreases xs, n,
{
    if n <= 0 || n > xs.len() || n > ys.len() {
        n == 0
    } else {
        entries_equal(xs, ys, n - 1) && values_equal(xs[n - 1].0, ys[n - 1].0) && values_equal(
            xs[n - 1].1,
            ys[n - 1].1,
        )
    }
}

/// The order of two values of one comparable kind; strings compare by their
/// UTF-8 bytes, which orders them by code point.
pub open spec fn order_of(a: ValueModel, b: ValueModel) -> Option<Ordering> {
    match (a, b) {
        (ValueModel::NoneType, ValueModel::NoneType) => Some(Ordering::Equal),
        (ValueModel::Bool(x), ValueModel::Bool(y)) => Some(
            if x == y {
                Ordering::Equal
            } else if !x {
                Ordering::Less
            } else {
                Ordering::Greater
            },
        ),
        (ValueModel::Int(x), ValueModel::Int(y)) => Some(
            if x == y {
                Ordering::Equal
            } else if x < y {
                Ordering::Less
            } else {
                Ordering::Greater
            },
        ),
        (ValueModel::Str(x), ValueModel::Str(y)) => Some(lex_order(encode_utf8(x), encode_utf8(y))),
        _ => None,
    }
}

/// Lexicographic order of two byte strings; a proper prefix comes first.
pub open spec fn lex_order(a: Seq<u8>, b: Seq<u8>) -> Ordering
    decreases a.len(),
{
    if a.len() == 0 {
        if b.len() == 0 {
            Ordering::Equal
        } else {
            Ordering::Less
        }
    } else if b.len() == 0 {
        Ordering::Greater
    } else if a[0] < b[0] {
        Ordering::Less
    } else if a[0] > b[0] {
        Ordering::Greater
    } else {
        lex_order(a.drop_first(), b.drop_first())
    }
}

fn lex_order_exec(a: &[u8], b: &[u8]) -> (r: Ordering)
    ensures
        r == lex_order(a@, b@),
{
    let mut i: usize = 0;
    proof {
        assert(a@.skip(0) =~= a@);
        assert(b@.skip(0) =~= b@);
    }
    while i < a.len() && i < b.len()
        invariant
            i <= a@.len(),
            i <= b@.len(),
            lex_order(a@, b@) == lex_order(a@.skip(i as int), b@.skip(i as int)),
        decreases a@.len() - i,
    {
        if a[i] < b[i] {
            return Ordering::Less;
        }
        if a[i] > b[i] {
            return Ordering::Greater;
        }
        proof {
            assert(a@.skip(i as int).drop_first() =~= a@.skip(i as int + 1));
            assert(b@.skip(i as int).drop_first() =~= b@.skip(i as int + 1));
        }
        i += 1;
    }
    if i < a.len() {
        Ordering::Greater
    } else if i < b.len() {
        Ordering::Less
    } else {
        Ordering::Equal
    }
}


fn bytes_hash_exec(b: &[u8]) -> (r: u64)
    ensures
        r == bytes_hash(b@),
{
    let mut h: u64 = 0;
    let mut i: usize = 0;
    while i < b.len()
        invariant
            i <= b@.len(),
            h == bytes_hash(b@.take(i as int)),
        decreases b@.len() - i,
    {
        proof {
            assert(b@.take(i as int + 1).drop_last() =~= b@.take(i as int));
        }
        h = ((h as u128 * 31 + b[i] as u128) % 0x1_0000_0000_0000_0000u128) as u64;
        i += 1;
    }
    proof {
        assert(b@.take(i as int) =~= b@);
    }
    h
}

impl Value {
    /// Truthiness: empty, zero and `None` are false.
    pub fn to_bool(&self) -> (r: bool)
        ensures
            r == truth(*self),
    {
        match self {
            Value::NoneType => false,
            Value::Bool(b) => *b,
            Value::Int(i) => *i != 0,
            Value::Str(s) => !s.as_str().is_empty(),
            Value::List { items, .. } => items.len() > 0,
            Value::Dict { entries, .. } => entries.len() > 0,
            Value::Function(_) => true,
            Value::BoundMethod(_) => true,
        }
    }

    /// The integer this value stands for; fails for a kind that has none.
    pub fn to_int(&self) -> (r: Result<i64, ValueError>)
        ensures
            match int_of(self.view()) {
                Some(i) => r == Ok::<i64, ValueError>(i as i64),
                None => r matches Err(ValueError::NotConvertible(op, t)) && op@ == "int"@ && t@
                    == kind_name(*self),
            },
    {
        match self {
            Value::Bool(b) => Ok(if *b { 1 } else { 0 }),
            Value::Int(i) => Ok(*i),
            _ => Err(ValueError::NotConvertible("int".to_owned(), self.get_type().to_owned())),
        }
    }
}


impl Value {
    /// The hash of this value; fails for a kind that has none. Equal values
    /// hash alike.
    pub fn get_hash(&self) -> (r: Result<u64, ValueError>)
        ensures
            match hash_of(self.view()) {
                Some(h) => r == Ok::<u64, ValueError>(h),
                None => r matches Err(ValueError::Unhashable(t)) && t@ == kind_name(*self),
            },
    {
        match self {
            Value::NoneType => Ok(0),
            Value::Bool(b) => Ok(if *b { 1 } else { 0 }),
            Value::Int(i) => Ok(*i as u64),
            Value::Str(s) => Ok(bytes_hash_exec(s.as_str().as_bytes())),
            _ => Err(ValueError::Unhashable(self.get_type().to_owned())),
        }
    }

    /// Whether this value equals `other`: by content within one kind, by
    /// identity for functions, never across kinds.
    pub fn equals(&self, other: &Value) -> (r: Result<bool, ValueError>)
        ensures
            r == Ok::<bool, ValueError>(values_equal(self.view(), other.view())),
        decreases self,
    {
        match (self, other) {
            (Value::NoneType, Value::NoneType) => Ok(true),
            (Value::Bool(x), Value::Bool(y)) => Ok(*x == *y),
            (Value::Int(x), Value::Int(y)) => Ok(*x == *y),
            (Value::Str(x), Value::Str(y)) => Ok(same_str(x, y)),
            (Value::List { items: xs, frozen: fx }, Value::List { items: ys, frozen: fy }) => {
                let ghost vx = crate::value::vec_views(*xs);
                let ghost vy = crate::value::vec_views(*ys);
                assert(self.view() == ValueModel::List(vx, *fx));
                assert(other.view() == ValueModel::List(vy, *fy));
                if xs.len() != ys.len() {
                    assert(vx.len() != vy.len());
                    return Ok(false);
                }
                let mut i: usize = 0;
                while i < xs.len()
                    invariant
                        decreases_to!(*self => *xs),
                        xs@.len() == ys@.len(),
                        vx == crate::value::vec_views(*xs),
                        self.view() == ValueModel::List(vx, *fx),
                        other.view() == ValueModel::List(vy, *fy),
                        vy == crate::value::vec_views(*ys),
                        i <= xs@.len(),
                        items_equal(vx, vy, i as int),
                    decreases xs@.len() - i,
                {
                    proof {
                        vstd::std_specs::vec::axiom_vec_index_decreases(*xs, i as int);
                    }
                    let e = xs[i].equals(&ys[i]);
                    match e {
                        Ok(true) => {},
                        _ => {
                            proof {
                                lemma_items_equal_prefix(vx, vy, i as int + 1, xs@.len() as int);
                            }
                            return Ok(false);
                        },
                    }
                    i += 1;
                }
                assert(vx.len() == xs@.len() && vy.len() == ys@.len());
                Ok(true)
            },
            (Value::Dict { entries: xs, frozen: fx }, Value::Dict { entries: ys, frozen: fy }) => {
                let ghost vx = crate::value::entry_vec_views(*xs);
                let ghost vy = crate::value::entry_vec_views(*ys);
                assert(self.view() == ValueModel::Dict(vx, *fx));
                assert(other.view() == ValueModel::Dict(vy, *fy));
                if xs.len() != ys.len() {
                    assert(vx.len() != vy.len());
                    return Ok(false);
                }
                let mut i: usize = 0;
                while i < xs.len()
                    invariant
                        decreases_to!(*self => *xs),
                        xs@.len() == ys@.len(),
                        vx == crate::value::entry_vec_views(*xs),
                        self.view() == ValueModel::Dict(vx, *fx),
                        other.view() == ValueModel::Dict(vy, *fy),
                        vy == crate::value::entry_vec_views(*ys),
                        i <= xs@.len(),
                        entries_equal(vx, vy, i as int),
                    decreases xs@.len() - i,
                {
                    proof {
                        vstd::std_specs::vec::axiom_vec_index_decreases(*xs, i as int);
                        assert(decreases_to!(xs@[i as int] => xs@[i as int].0));
                        assert(decreases_to!(xs@[i as int] => xs@[i as int].1));
                    }
                    let k = xs[i].0.equals(&ys[i].0);
                    let v = xs[i].1.equals(&ys[i].1);
                    match (k, v) {
                        (Ok(true), Ok(true)) => {},
                        _ => {
                            proof {
                                lemma_entries_equal_prefix(vx, vy, i as int + 1, xs@.len() as int);
                            }
                            return Ok(false);
                        },
                    }
                    i += 1;
                }
                assert(vx.len() == xs@.len() && vy.len() == ys@.len());
                Ok(true)
            },
            (Value::Function(f), Value::Function(g)) => Ok(same_function_type(&f.function_type, &g.function_type)),
            (Value::BoundMethod(m), Value::BoundMethod(n)) => {
                let a = m.method.equals(&n.method);
                let b = m.self_obj.equals(&n.self_obj);
                match (a, b) {
                    (Ok(true), Ok(true)) => Ok(true),
                    _ => Ok(false),
                }
            },
            _ => Ok(false),
        }
    }

    /// The order of this value and `other`; fails unless both are of one
    /// orderable kind.
    pub fn compare(&self, other: &Value) -> (r: Result<Ordering, ValueError>)
        ensures
            match order_of(self.view(), other.view()) {
                Some(o) => r == Ok::<Ordering, ValueError>(o),
                None => r matches Err(ValueError::NotOrderable(a, b)) && a@ == kind_name(*self)
                    && b@ == kind_name(*other),
            },
    {
        match (self, other) {
            (Value::NoneType, Value::NoneType) => Ok(Ordering::Equal),
            (Value::Bool(x), Value::Bool(y)) => Ok(
                if *x == *y {
                    Ordering::Equal
                } else if !*x {
                    Ordering::Less
                } else {
                    Ordering::Greater
                },
            ),
            (Value::Int(x), Value::Int(y)) => Ok(
                if *x == *y {
                    Ordering::Equal
                } else if *x < *y {
                    Ordering::Less
                } else {
                    Ordering::Greater
                },
            ),
            (Value::Str(x), Value::Str(y)) => Ok(lex_order_exec(x.as_str().as_bytes(), y.as_str().as_bytes())),
            _ => Err(ValueError::NotOrderable(self.get_type().to_owned(), other.get_type().to_owned())),
        }
    }
}

fn same_str(a: &String, b: &String) -> (r: bool)
    ensures
        r == (a@ == b@),
{
    a.eq(b)
}

fn same_function_type(a: &FunctionType, b: &FunctionType) -> (r: bool)
    ensures
        r == same_type(*a, *b),
{
    match (a, b) {
        (FunctionType::Native(x), FunctionType::Native(y)) => same_str(x, y),
        (FunctionType::Def(x, m), FunctionType::Def(y, n)) => same_str(x, y) && same_str(m, n),
        _ => false,
    }
}

proof fn lemma_items_equal_prefix(xs: Seq<ValueModel>, ys: Seq<ValueModel>, i: int, n: int)
    requires
        0 < i <= n <= xs.len(),
        n <= ys.len(),
        !values_equal(xs[i - 1], ys[i - 1]),
    ensures
        !items_equal(xs, ys, n),
    decreases n,
{
    if n > i {
        lemma_items_equal_prefix(xs, ys, i, n - 1);
    }
}

proof fn lemma_entries_equal_prefix(
    xs: Seq<(ValueModel, ValueModel)>,
    ys: Seq<(ValueModel, ValueModel)>,
    i: int,
    n: int,
)
    requires
        0 < i <= n <= xs.len(),
        n <= ys.len(),
        !(values_equal(xs[i - 1].0, ys[i - 1].0) && values_equal(xs[i - 1].1, ys[i - 1].1)),
    ensures
        !entries_equal(xs, ys, n),
    decreases n,
{
    if n > i {
        lemma_entries_equal_prefix(xs, ys, i, n - 1);
    }
}


/// Hash and equality agree: two equal values that both have a hash have the
/// same hash.
pub proof fn lemma_hash_consistent(x: Value, y: Value)
    requires
        values_equal(x.view(), y.view()),
        hash_of(x.view()) is Some,
        hash_of(y.view()) is Some,
    ensures
        hash_of(x.view()) == hash_of(y.view()),
{
}

} // verus!
