use vstd::prelude::*;

verus! {

/// A JSON-like property value.
///
/// `Float` holds the IEEE 754 bit pattern of a 64-bit float, so that two
/// floats are equal exactly when their bits are. `Object` is a list of
/// key/value entries whose order carries no meaning.
#[derive(Debug)]
pub enum Value {
    Null,
    Bool(bool),
    Int(i64),
    Float(u64),
    String(String),
    Array(Vec<Value>),
    Object(Vec<(String, Value)>),
}

/// A property map: entries of text keys and values.
pub type Properties = Vec<(String, Value)>;

/// Structural equality of values. Arrays compare element by element;
/// objects compare as maps, where the first entry of a key gives its value:
/// they have the same keys, and equal values under each key.
pub open spec fn value_eq(a: Value, b: Value) -> bool
    decreases a, 0int,
{
    match a {
        Value::Null => b is Null,
        Value::Bool(x) => b is Bool && b->Bool_0 == x,
        Value::Int(x) => b is Int && b->Int_0 == x,
        Value::Float(x) => b is Float && b->Float_0 == x,
        Value::String(x) => b is String && b->String_0@ == x@,
        Value::Array(xs) => match b {
            Value::Array(ys) => xs@.len() == ys@.len() && arrays_eq_from(xs@, ys@, 0),
            _ => false,
        },
        Value::Object(xs) => match b {
            Value::Object(ys) => entries_match_from(xs@, ys@, 0) && keys_covered(ys@, xs@),
            _ => false,
        },
    }
}

/// Elements `i..` of `xs` equal the elements of `ys` at the same positions.
pub open spec fn arrays_eq_from(xs: Seq<Value>, ys: Seq<Value>, i: int) -> bool
    decreases xs, xs.len() - i,
{
    if 0 <= i < xs.len() && i < ys.len() {
        value_eq(xs[i], ys[i]) && arrays_eq_from(xs, ys, i + 1)
    } else {
        true
    }
}

/// Each entry `i..` of `xs` that is the first of its key is matched in `ys`.
pub open spec fn entries_match_from(xs: Seq<(String, Value)>, ys: Seq<(String, Value)>, i: int) -> bool
    decreases xs, xs.len() - i,
{
    if 0 <= i < xs.len() {
        (key_position(xs, xs[i].0@) == i ==> entry_match(xs[i], ys)) && entries_match_from(
            xs,
            ys,
            i + 1,
        )
    } else {
        true
    }
}

/// `ys` has the key of `e`, and its first entry of that key has a value
/// equal to that of `e`.
pub open spec fn entry_match(e: (String, Value), ys: Seq<(String, Value)>) -> bool
    decreases e, 0int,
{
    let pos = key_position(ys, e.0@);
    0 <= pos < ys.len() && value_eq(e.1, ys[pos].1)
}

/// Every key of `ys` is a key of `xs`.
pub open spec fn keys_covered(ys: Seq<(String, Value)>, xs: Seq<(String, Value)>) -> bool {
    forall|j: int| 0 <= j < ys.len() ==> has_key(xs, #[trigger] ys[j].0@)
}

pub open spec fn has_key(xs: Seq<(String, Value)>, k: Seq<char>) -> bool {
    exists|i: int| 0 <= i < xs.len() && #[trigger] xs[i].0@ == k
}

/// Position of the first entry of `p` at or after `i` whose key is `k`, or -1.
pub open spec fn key_position_from(p: Seq<(String, Value)>, k: Seq<char>, i: int) -> int
    decreases p.len() - i,
{
    if i < 0 || i >= p.len() {
        -1
    } else if p[i].0@ == k {
        i
    } else {
        key_position_from(p, k, i + 1)
    }
}

/// Position of the first entry of `p` whose key is `k`, or -1.
pub open spec fn key_position(p: Seq<(String, Value)>, k: Seq<char>) -> int {
    key_position_from(p, k, 0)
}

/// `p` holds every entry of `f`: each key of `f` is present in `p`, and the
/// value that `p` gives it equals the one in `f`.
pub open spec fn props_superset(p: Seq<(String, Value)>, f: Seq<(String, Value)>) -> bool {
    forall|i: int|
        0 <= i < f.len() ==> {
            let pos = key_position(p, #[trigger] f[i].0@);
            0 <= pos < p.len() && value_eq(p[pos].1, f[i].1)
        }
}

/// Whether two values are structurally equal.
pub fn values_equal(a: &Value, b: &Value) -> (r: bool)
    ensures
        r == value_eq(*a, *b),
    decreases a,
{
    match (a, b) {
        (Value::Null, Value::Null) => true,
        (Value::Bool(x), Value::Bool(y)) => *x == *y,
        (Value::Int(x), Value::Int(y)) => *x == *y,
        (Value::Float(x), Value::Float(y)) => *x == *y,
        (Value::String(x), Value::String(y)) => *x == *y,
        (Value::Array(xs), Value::Array(ys)) => {
            if xs.len() != ys.len() {
                return false;
            }
            let mut i: usize = 0;
            while i < xs.len()
                invariant
                    xs@.len() == ys@.len(),
                    0 <= i <= xs@.len(),
                    *a == Value::Array(*xs),
                    *b == Value::Array(*ys),
                    arrays_eq_from(xs@, ys@, 0) == arrays_eq_from(xs@, ys@, i as int),
                decreases xs@.len() - i,
            {
                proof {
                    assert(decreases_to!(*a => (*a)->Array_0));
                    assert(decreases_to!(*xs => xs@));
                    assert(decreases_to!(xs@ => xs@[i as int]));
                }
                if !values_equal(&xs[i], &ys[i]) {
                    return false;
                }
                i = i + 1;
            }
            true
        },
        (Value::Object(xs), Value::Object(ys)) => {
            let mut i: usize = 0;
            while i < xs.len()
                invariant
                    0 <= i <= xs@.len(),
                    *a == Value::Object(*xs),
                    *b == Value::Object(*ys),
                    entries_match_from(xs@, ys@, 0) == entries_match_from(xs@, ys@, i as int),
                decreases xs@.len() - i,
            {
                let first = match key_index(xs, &xs[i].0) {
                    Some(f) => f == i,
                    None => false,
                };
                proof {
                    assert(first == (key_position(xs@, xs@[i as int].0@) == i));
                }
                if first {
                    match key_index(ys, &xs[i].0) {
                        Some(j) => {
                            proof {
                                assert(decreases_to!(*a => (*a)->Object_0));
                                assert(decreases_to!(*xs => xs@));
                                assert(decreases_to!(xs@ => xs@[i as int]));
                                assert(decreases_to!(xs@[i as int] => xs@[i as int].1));
                            }
                            let same = values_equal(&xs[i].1, &ys[j].1);
                            proof {
                                assert(key_position(ys@, xs@[i as int].0@) == j as int);
                                assert(same == value_eq(xs@[i as int].1, ys@[j as int].1));
                                assert(entry_match(xs@[i as int], ys@) == same);
                            }
                            if !same {
                                return false;
                            }
                        },
                        None => {
                            proof {
                                assert(!entry_match(xs@[i as int], ys@));
                            }
                            return false;
                        },
                    }
                }
                i = i + 1;
            }
            let mut j: usize = 0;
            while j < ys.len()
                invariant
                    0 <= j <= ys@.len(),
                    *a == Value::Object(*xs),
                    *b == Value::Object(*ys),
                    entries_match_from(xs@, ys@, 0),
                    forall|q: int| 0 <= q < j ==> has_key(xs@, #[trigger] ys@[q].0@),
                decreases ys@.len() - j,
            {
                let mut k: usize = 0;
                let mut found = false;
                while k < xs.len() && !found
                    invariant
                        0 <= j < ys@.len(),
                        0 <= k <= xs@.len(),
                        found ==> has_key(xs@, ys@[j as int].0@),
                        !found ==> forall|q: int| 0 <= q < k ==> xs@[q].0@ != ys@[j as int].0@,
                    decreases xs@.len() - k,
                {
                    if xs[k].0 == ys[j].0 {
                        found = true;
                    }
                    k = k + 1;
                }
                if !found {
                    proof {
                        assert(!has_key(xs@, ys@[j as int].0@));
                        assert(!keys_covered(ys@, xs@));
                    }
                    return false;
                }
                j = j + 1;
            }
            true
        },
        _ => false,
    }
}

/// Copies a value, element by element.
pub fn copy_value(v: &Value) -> (r: Value)
    ensures
        value_eq(r, *v),
    decreases v,
{
    match v {
        Value::Null => Value::Null,
        Value::Bool(x) => Value::Bool(*x),
        Value::Int(x) => Value::Int(*x),
        Value::Float(x) => Value::Float(*x),
        Value::String(s) => Value::String(s.clone()),
        Value::Array(xs) => {
            let mut out: Vec<Value> = Vec::new();
            let mut i: usize = 0;
            while i < xs.len()
                invariant
                    0 <= i <= xs@.len(),
                    out@.len() == i,
                    *v == Value::Array(*xs),
                    forall|q: int| 0 <= q < i ==> value_eq(#[trigger] out@[q], xs@[q]),
                decreases xs@.len() - i,
            {
                proof {
                    assert(decreases_to!(*v => (*v)->Array_0));
                    assert(decreases_to!(*xs => xs@));
                    assert(decreases_to!(xs@ => xs@[i as int]));
                }
                let c = copy_value(&xs[i]);
                out.push(c);
                i = i + 1;
            }
            proof {
                lemma_arrays_from(out@, xs@, 0);
            }
            Value::Array(out)
        },
        Value::Object(xs) => {
            let mut out: Vec<(String, Value)> = Vec::new();
            let mut i: usize = 0;
            while i < xs.len()
                invariant
                    0 <= i <= xs@.len(),
                    out@.len() == i,
                    *v == Value::Object(*xs),
                    forall|q: int|
                        0 <= q < i ==> (#[trigger] out@[q]).0@ == xs@[q].0@ && value_eq(
                            out@[q].1,
                            xs@[q].1,
                        ),
                decreases xs@.len() - i,
            {
                proof {
                    assert(decreases_to!(*v => (*v)->Object_0));
                    assert(decreases_to!(*xs => xs@));
                    assert(decreases_to!(xs@ => xs@[i as int]));
                    assert(decreases_to!(xs@[i as int] => xs@[i as int].1));
                }
                let c = copy_value(&xs[i].1);
                out.push((xs[i].0.clone(), c));
                i = i + 1;
            }
            proof {
                lemma_entries_match_copy(out@, xs@, 0);
                assert forall|j: int| 0 <= j < xs@.len() implies has_key(
                    out@,
                    #[trigger] xs@[j].0@,
                ) by {
                    assert(out@[j].0@ == xs@[j].0@);
                }
            }
            Value::Object(out)
        },
    }
}

proof fn lemma_arrays_from(xs: Seq<Value>, ys: Seq<Value>, i: int)
    requires
        xs.len() == ys.len(),
        0 <= i <= xs.len(),
        forall|q: int| 0 <= q < xs.len() ==> value_eq(#[trigger] xs[q], ys[q]),
    ensures
        arrays_eq_from(xs, ys, i),
    decreases xs.len() - i,
{
    if i < xs.len() {
        lemma_arrays_from(xs, ys, i + 1);
    }
}

proof fn lemma_same_keys_position(
    a: Seq<(String, Value)>,
    b: Seq<(String, Value)>,
    k: Seq<char>,
    i: int,
)
    requires
        a.len() == b.len(),
        forall|q: int| 0 <= q < a.len() ==> (#[trigger] a[q]).0@ == b[q].0@,
    ensures
        key_position_from(a, k, i) == key_position_from(b, k, i),
    decreases a.len() - i,
{
    if 0 <= i < a.len() {
        lemma_same_keys_position(a, b, k, i + 1);
    }
}

proof fn lemma_entries_match_copy(xs: Seq<(String, Value)>, ys: Seq<(String, Value)>, i: int)
    requires
        xs.len() == ys.len(),
        0 <= i <= xs.len(),
        forall|q: int|
            0 <= q < xs.len() ==> (#[trigger] xs[q]).0@ == ys[q].0@ && value_eq(xs[q].1, ys[q].1),
    ensures
        entries_match_from(xs, ys, i),
    decreases xs.len() - i,
{
    if i < xs.len() {
        lemma_same_keys_position(xs, ys, xs[i].0@, 0);
        if key_position(xs, xs[i].0@) == i {
            assert(key_position(ys, xs[i].0@) == i);
            assert(entry_match(xs[i], ys));
        }
        lemma_entries_match_copy(xs, ys, i + 1);
    }
}

/// Position of the first entry of `p` whose key is `key`.
pub fn key_index(p: &Properties, key: &String) -> (r: Option<usize>)
    ensures
        key_position(p@, key@) == -1 ==> r is None,
        key_position(p@, key@) != -1 ==> r is Some,
        r matches Some(j) ==> j as int == key_position(p@, key@) && j < p@.len(),
{
    let mut i: usize = 0;
    while i < p.len()
        invariant
            0 <= i <= p@.len(),
            key_position(p@, key@) == key_position_from(p@, key@, i as int),
        decreases p@.len() - i,
    {
        if p[i].0 == *key {
            return Some(i);
        }
        i = i + 1;
    }
    None
}

/// The value of the first entry of `p` whose key is `key`.
pub fn get_property<'a>(p: &'a Properties, key: &String) -> (r: Option<&'a Value>)
    ensures
        key_position(p@, key@) == -1 ==> r is None,
        key_position(p@, key@) != -1 ==> {
            &&& 0 <= key_position(p@, key@) < p@.len()
            &&& r == Some(&p@[key_position(p@, key@)].1)
        },
{
    let mut i: usize = 0;
    while i < p.len()
        invariant
            0 <= i <= p@.len(),
            key_position(p@, key@) == key_position_from(p@, key@, i as int),
        decreases p@.len() - i,
    {
        if p[i].0 == *key {
            return Some(&p[i].1);
        }
        i = i + 1;
    }
    None
}

/// Whether `p` holds every entry of `f` (see `props_superset`).
pub fn properties_filter(p: &Properties, f: &Properties) -> (r: bool)
    ensures
        r == props_superset(p@, f@),
{
    let mut i: usize = 0;
    while i < f.len()
        invariant
            0 <= i <= f@.len(),
            forall|q: int|
                0 <= q < i ==> {
                    let pos = key_position(p@, #[trigger] f@[q].0@);
                    0 <= pos < p@.len() && value_eq(p@[pos].1, f@[q].1)
                },
        decreases f@.len() - i,
    {
        match get_property(p, &f[i].0) {
            Some(v) => {
                if !values_equal(v, &f[i].1) {
                    return false;
                }
            },
            None => {
                return false;
            },
        }
        i = i + 1;
    }
    true
}

impl PartialEq for Value {
    fn eq(&self, other: &Value) -> (r: bool)
        ensures
            r == value_eq(*self, *other),
    {
        values_equal(self, other)
    }
}

impl vstd::std_specs::cmp::PartialEqSpecImpl for Value {
    open spec fn obeys_eq_spec() -> bool {
        true
    }

    open spec fn eq_spec(&self, other: &Value) -> bool {
        value_eq(*self, *other)
    }
}

} // verus!
