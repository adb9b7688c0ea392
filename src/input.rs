use vstd::prelude::*;
use crate::decimal::{Decimal, parse_decimal, spec_parse_decimal};
use crate::value::{Number, Value, spec_as_i64, spec_as_bool, spec_as_str, spec_as_array, spec_as_object};

verus! {

/// The value bound to `key` among `entries`; where a key occurs more than
/// once, the last binding is the one that counts.
pub open spec fn entries_lookup(entries: Seq<(String, Value)>, key: Seq<char>) -> Option<Value>
    decreases entries.len(),
{
    if entries.len() == 0 {
        None
    } else if entries.last().0@ == key {
        Some(entries.last().1)
    } else {
        entries_lookup(entries.drop_last(), key)
    }
}

/// The decimal held, or zero where there is none.
pub open spec fn decimal_or_zero(d: Option<Decimal>) -> Decimal {
    match d {
        Some(x) => x,
        None => Decimal::spec_zero(),
    }
}

/// No key occurs twice among `entries`.
pub open spec fn keys_unique(entries: Seq<(String, Value)>) -> bool {
    forall|i: int, j: int|
        0 <= i < j < entries.len() ==> #[trigger] entries[i].0@ != #[trigger] entries[j].0@
}

/// The fields handed to a handler: a mapping from string keys to values,
/// read through accessors that never fail.
pub struct RouterInput {
    entries: Vec<(String, Value)>,
}

impl View for RouterInput {
    type V = Seq<(String, Value)>;

    closed spec fn view(&self) -> Seq<(String, Value)> {
        self.entries@
    }
}

impl RouterInput {
    /// The value bound to `key`, if any.
    pub open spec fn spec_get(&self, key: Seq<char>) -> Option<Value> {
        entries_lookup(self@, key)
    }

    /// The integer at `key`, 0 by default.
    pub open spec fn spec_get_i64(&self, key: Seq<char>) -> i64 {
        match self.spec_get(key) {
            Some(v) => match spec_as_i64(v) {
                Some(n) => n,
                None => 0,
            },
            None => 0,
        }
    }

    /// The boolean at `key`, `false` by default.
    pub open spec fn spec_get_bool(&self, key: Seq<char>) -> bool {
        match self.spec_get(key) {
            Some(v) => match spec_as_bool(v) {
                Some(b) => b,
                None => false,
            },
            None => false,
        }
    }

    /// The text at `key`, empty by default.
    pub open spec fn spec_get_str(&self, key: Seq<char>) -> Seq<char> {
        match self.spec_get(key) {
            Some(v) => match spec_as_str(v) {
                Some(t) => t,
                None => Seq::empty(),
            },
            None => Seq::empty(),
        }
    }

    /// The elements of the array at `key`, none by default.
    pub open spec fn spec_get_array(&self, key: Seq<char>) -> Seq<Value> {
        match self.spec_get(key) {
            Some(v) => match spec_as_array(v) {
                Some(a) => a,
                None => Seq::empty(),
            },
            None => Seq::empty(),
        }
    }

    /// The fields of the object at `key`, none by default.
    pub open spec fn spec_get_object(&self, key: Seq<char>) -> Seq<(String, Value)> {
        match self.spec_get(key) {
            Some(v) => match spec_as_object(v) {
                Some(o) => o,
                None => Seq::empty(),
            },
            None => Seq::empty(),
        }
    }

    pub fn new(map: Vec<(String, Value)>) -> (r: Self)
        requires
            keys_unique(map@),
        ensures
            r@ == map@,
    {
        RouterInput { entries: map }
    }

    /// The raw value bound to `key`, or `None` where the key is absent.
    pub fn get_value(&self, key: &str) -> (r: Option<&Value>)
        ensures
            match r {
                Some(v) => self.spec_get(key@) == Some(*v),
                None => self.spec_get(key@).is_none(),
            },
    {
        let wanted: String = key.to_owned();
        let mut i: usize = self.entries.len();
        assert(self@.take(i as int) =~= self@);
        while i > 0
            invariant
                i <= self.entries.len(),
                wanted@ == key@,
                entries_lookup(self@, key@) == entries_lookup(self@.take(i as int), key@),
            decreases i,
        {
            let entry = &self.entries[i - 1];
            assert(self@.take(i as int).drop_last() =~= self@.take(i - 1));
            assert(self@.take(i as int).last() == self@[i - 1]);
            if entry.0 == wanted {
                return Some(&entry.1);
            }
            i -= 1;
        }
        None
    }

    /// Whether `key` is present, whatever its value.
    pub fn has(&self, key: &str) -> (r: bool)
        ensures
            r == self.spec_get(key@).is_some(),
    {
        self.get_value(key).is_some()
    }

    /// The integer at `key`, or 0 where it is absent or not an integer
    /// that fits in an `i64`.
    pub fn get_i64(&self, key: &str) -> (r: i64)
        ensures
            r == self.spec_get_i64(key@),
    {
        match self.get_value(key) {
            Some(v) => match v.as_i64() {
                Some(n) => n,
                None => 0,
            },
            None => 0,
        }
    }

    /// The boolean at `key`, or `false` where it is absent or not a boolean.
    pub fn get_bool(&self, key: &str) -> (r: bool)
        ensures
            r == self.spec_get_bool(key@),
    {
        match self.get_value(key) {
            Some(v) => match v.as_bool() {
                Some(b) => b,
                None => false,
            },
            None => false,
        }
    }

    /// The string at `key`, or the empty string where it is absent or not a
    /// string.
    pub fn get_str(&self, key: &str) -> (r: &str)
        ensures
            r@ == self.spec_get_str(key@),
    {
        proof {
            reveal_strlit("");
        }
        match self.get_value(key) {
            Some(v) => match v.as_str() {
                Some(s) => s,
                None => "",
            },
            None => "",
        }
    }

    /// The elements of the array at `key`, or none where it is absent or not
    /// an array.
    pub fn get_array(&self, key: &str) -> (r: &[Value])
        ensures
            r@ == self.spec_get_array(key@),
    {
        match self.get_value(key) {
            Some(v) => match v.as_array() {
                Some(a) => a,
                None => &[],
            },
            None => &[],
        }
    }

    /// The fields of the object at `key`, or none where it is absent or not
    /// an object.
    pub fn get_object(&self, key: &str) -> (r: &[(String, Value)])
        ensures
            r@ == self.spec_get_object(key@),
    {
        match self.get_value(key) {
            Some(v) => match v.as_object() {
                Some(o) => o,
                None => &[],
            },
            None => &[],
        }
    }

    /// The decimal at `key`: a number goes through `number_to_decimal`, a
    /// string is parsed as a decimal literal, and anything else, a failed
    /// conversion and an absent key give zero.
    pub fn get_decimal<F: Fn(Number) -> Option<Decimal>>(&self, key: &str, number_to_decimal: F) -> (r: Decimal)
        requires
            forall|n: Number| number_to_decimal.requires((n,)),
        ensures
            match self.spec_get(key@) {
                Some(Value::Number(n)) => exists|o: Option<Decimal>|
                    number_to_decimal.ensures((n,), o) && r == decimal_or_zero(o),
                Some(Value::String(t)) => r == spec_parse_decimal(t@),
                _ => r == Decimal::spec_zero(),
            },
    {
        match self.get_value(key) {
            Some(Value::Number(n)) => {
                let o = number_to_decimal(*n);
                assert(number_to_decimal.ensures((*n,), o) && decimal_or_zero(o) == match o {
                    Some(d) => d,
                    None => Decimal::spec_zero(),
                });
                match o {
                    Some(d) => d,
                    None => Decimal::zero(),
                }
            },
            Some(Value::String(t)) => parse_decimal(t.as_str()),
            _ => Decimal::zero(),
        }
    }

    /// Every field, each key once.
    pub fn raw(&self) -> (r: &[(String, Value)])
        ensures
            r@ == self@,
    {
        self.entries.as_slice()
    }
}

/// Every accessor falls back to its default on a key that is absent: no
/// value, 0, `false`, the empty string, no elements and no fields.
pub proof fn lemma_absent_key_defaults(input: RouterInput, key: Seq<char>)
    requires
        input.spec_get(key).is_none(),
    ensures
        input.spec_get_i64(key) == 0,
        input.spec_get_bool(key) == false,
        input.spec_get_str(key) == Seq::<char>::empty(),
        input.spec_get_array(key) == Seq::<Value>::empty(),
        input.spec_get_object(key) == Seq::<(String, Value)>::empty(),
{
}

} // verus!
