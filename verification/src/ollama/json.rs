use vstd::prelude::*;

verus! {

/// A JSON number, as far as readers of it can see: its value as an unsigned
/// integer where it is one, and its value as a double, held by the double's
/// IEEE-754 bit pattern, where it has one.
#[derive(Debug, Clone, Copy, PartialEq, Eq, Structural)]
pub struct JsonNumber {
    pub as_u64: Option<u64>,
    pub as_f64_bits: Option<u64>,
}

/// A JSON document. An object's members keep their order; a lookup by key
/// finds the first member with that key.
#[derive(Debug)]
pub enum JsonValue {
    Null,
    Bool(bool),
    Number(JsonNumber),
    Text(String),
    Array(Vec<JsonValue>),
    Object(Vec<(String, JsonValue)>),
}

/// Member `i` is the first with key `key`.
pub open spec fn first_key(members: Seq<(String, JsonValue)>, key: Seq<char>, i: int) -> bool {
    &&& 0 <= i < members.len()
    &&& members[i].0@ == key
    &&& forall|j: int| 0 <= j < i ==> (#[trigger] members[j]).0@ != key
}

/// The value of the member with key `key`, if there is one.
pub open spec fn member_value(members: Seq<(String, JsonValue)>, key: Seq<char>) -> Option<JsonValue> {
    if exists|i: int| first_key(members, key, i) {
        Some(members[choose|i: int| first_key(members, key, i)].1)
    } else {
        None
    }
}

/// Looking a key up: only objects have members.
pub open spec fn value_get(value: JsonValue, key: Seq<char>) -> Option<JsonValue> {
    match value {
        JsonValue::Object(members) => member_value(members@, key),
        _ => None,
    }
}

impl JsonValue {
    /// The value under `key`, where `self` is an object that has that key.
    pub fn get(&self, key: &str) -> (res: Option<&JsonValue>)
        ensures
            match res {
                Some(v) => value_get(*self, key@) == Some(*v),
                None => value_get(*self, key@) is None,
            },
    {
        match self {
            JsonValue::Object(members) => {
                let wanted = String::from_str(key);
                let n = members.len();
                let mut i: usize = 0;
                while i < n
                    invariant
                        n == members@.len(),
                        i <= n,
                        wanted@ == key@,
                        value_get(*self, key@) == member_value(members@, key@),
                        forall|j: int| 0 <= j < i ==> (#[trigger] members@[j]).0@ != key@,
                    decreases n - i,
                {
                    if members[i].0 == wanted {
                        proof {
                            assert(first_key(members@, key@, i as int));
                            let k = choose|k: int| first_key(members@, key@, k);
                            assert(k == i as int) by {
                                if k < i {
                                    assert(members@[k].0@ != key@);
                                }
                                if i < k {
                                    assert(members@[i as int].0@ != key@);
                                }
                            }
                            assert(member_value(members@, key@) == Some(members@[i as int].1));
                        }
                        return Some(&members[i].1);
                    }
                    i = i + 1;
                }
                proof {
                    assert forall|k: int| !first_key(members@, key@, k) by {
                        if 0 <= k < members@.len() {
                            assert(members@[k].0@ != key@);
                        }
                    }
                }
                None
            },
            _ => None,
        }
    }

    /// The elements, where `self` is an array.
    pub fn as_array(&self) -> (res: Option<&Vec<JsonValue>>)
        ensures
            match self {
                JsonValue::Array(items) => res == Some(items),
                _ => res is None,
            },
    {
        match self {
            JsonValue::Array(items) => Some(items),
            _ => None,
        }
    }

    /// The text, where `self` is a string.
    pub fn as_str(&self) -> (res: Option<&String>)
        ensures
            match self {
                JsonValue::Text(text) => res == Some(text),
                _ => res is None,
            },
    {
        match self {
            JsonValue::Text(text) => Some(text),
            _ => None,
        }
    }

    /// The value as an unsigned integer, where `self` is a number that is one.
    pub fn as_u64(&self) -> (res: Option<u64>)
        ensures
            res == match self {
                JsonValue::Number(n) => n.as_u64,
                _ => None,
            },
    {
        match self {
            JsonValue::Number(n) => n.as_u64,
            _ => None,
        }
    }

    /// The bit pattern of the value as a double, where `self` is a number that has one.
    pub fn as_f64_bits(&self) -> (res: Option<u64>)
        ensures
            res == match self {
                JsonValue::Number(n) => n.as_f64_bits,
                _ => None,
            },
    {
        match self {
            JsonValue::Number(n) => n.as_f64_bits,
            _ => None,
        }
    }
}

} // verus!
