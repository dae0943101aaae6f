use vstd::prelude::*;
use vstd::string::*;

verus! {

broadcast use vstd::std_specs::vec::axiom_vec_index_decreases;

/// A structured field value: a scalar, or a tree of arrays and objects.
#[derive(Debug, PartialEq, Eq)]
pub enum Value {
    Null,
    Boolean(bool),
    Integer(i64),
    Bytes(String),
    /// Nanoseconds since the Unix epoch.
    Timestamp(i64),
    Array(Vec<Value>),
    Object(Object),
}

/// An ordered map from string keys to values; keys are unique and keep their first position.
#[derive(Debug, PartialEq, Eq)]
pub struct Object {
    entries: Vec<(String, Value)>,
}

impl From<bool> for Value {
    fn from(v: bool) -> (r: Value)
        ensures
            r == Value::Boolean(v),
    {
        Value::Boolean(v)
    }
}

impl vstd::std_specs::convert::FromSpecImpl<bool> for Value {
    open spec fn obeys_from_spec() -> bool {
        true
    }

    open spec fn from_spec(v: bool) -> Value {
        Value::Boolean(v)
    }
}

impl From<i64> for Value {
    fn from(v: i64) -> (r: Value)
        ensures
            r == Value::Integer(v),
    {
        Value::Integer(v)
    }
}

impl vstd::std_specs::convert::FromSpecImpl<i64> for Value {
    open spec fn obeys_from_spec() -> bool {
        true
    }

    open spec fn from_spec(v: i64) -> Value {
        Value::Integer(v)
    }
}

impl From<String> for Value {
    fn from(v: String) -> (r: Value)
        ensures
            r == Value::Bytes(v),
    {
        Value::Bytes(v)
    }
}

impl vstd::std_specs::convert::FromSpecImpl<String> for Value {
    open spec fn obeys_from_spec() -> bool {
        true
    }

    open spec fn from_spec(v: String) -> Value {
        Value::Bytes(v)
    }
}

impl From<Vec<Value>> for Value {
    fn from(v: Vec<Value>) -> (r: Value)
        ensures
            r == Value::Array(v),
    {
        Value::Array(v)
    }
}

impl vstd::std_specs::convert::FromSpecImpl<Vec<Value>> for Value {
    open spec fn obeys_from_spec() -> bool {
        true
    }

    open spec fn from_spec(v: Vec<Value>) -> Value {
        Value::Array(v)
    }
}

impl From<Object> for Value {
    fn from(v: Object) -> (r: Value)
        ensures
            r == Value::Object(v),
    {
        Value::Object(v)
    }
}

impl vstd::std_specs::convert::FromSpecImpl<Object> for Value {
    open spec fn obeys_from_spec() -> bool {
        true
    }

    open spec fn from_spec(v: Object) -> Value {
        Value::Object(v)
    }
}

/// Whether no two entries share a key.
pub open spec fn distinct_keys(s: Seq<(String, Value)>) -> bool {
    forall|i: int, j: int| 0 <= i < j < s.len() ==> s[i].0@ != s[j].0@
}

/// Whether some entry has key `k`.
pub open spec fn has_key(s: Seq<(String, Value)>, k: Seq<char>) -> bool {
    exists|i: int| 0 <= i < s.len() && s[i].0@ == k
}

/// The position of the entry with key `k`, where there is one.
pub open spec fn key_index(s: Seq<(String, Value)>, k: Seq<char>) -> int {
    choose|i: int| 0 <= i < s.len() && s[i].0@ == k
}

/// The entries after inserting `(k, v)`: an entry with the same key is replaced where it
/// stands, else the pair goes last.
pub open spec fn inserted(s: Seq<(String, Value)>, k: String, v: Value) -> Seq<(String, Value)> {
    if has_key(s, k@) {
        s.update(key_index(s, k@), (k, v))
    } else {
        s.push((k, v))
    }
}

/// The decimal digit for `d`, which is below ten.
pub open spec fn digit(d: int) -> char {
    seq!['0', '1', '2', '3', '4', '5', '6', '7', '8', '9'][d]
}

/// The decimal text of `n`, without leading zeros.
pub open spec fn nat_text(n: nat) -> Seq<char>
    decreases n,
{
    if n < 10 {
        seq![digit(n as int)]
    } else {
        nat_text(n / 10) + seq![digit((n % 10) as int)]
    }
}

/// The decimal text of `n`, with a minus sign where it is negative.
pub open spec fn int_text(n: int) -> Seq<char> {
    if n < 0 {
        seq!['-'] + nat_text((-n) as nat)
    } else {
        nat_text(n as nat)
    }
}

/// The text of a value: empty for null, `true`/`false`, decimal numbers, the string itself
/// for bytes, and `[a,b]` or `{k:v,l:w}` for arrays and objects, whose members render alike.
pub open spec fn render(v: Value) -> Seq<char>
    decreases v, 1nat, 0nat,
{
    match v {
        Value::Null => Seq::empty(),
        Value::Boolean(b) => if b {
            seq!['t', 'r', 'u', 'e']
        } else {
            seq!['f', 'a', 'l', 's', 'e']
        },
        Value::Integer(n) => int_text(n as int),
        Value::Bytes(s) => s@,
        Value::Timestamp(t) => int_text(t as int),
        Value::Array(items) => seq!['['] + render_items(v, items@.len()) + seq![']'],
        Value::Object(o) => seq!['{'] + render_entries(v, o.entries().len()) + seq!['}'],
    }
}

/// The first `n` members of array `v`, rendered and joined by commas.
pub open spec fn render_items(v: Value, n: nat) -> Seq<char>
    decreases v, 0nat, n,
{
    match v {
        Value::Array(items) => {
            if n == 0 || n > items@.len() {
                Seq::empty()
            } else if n == 1 {
                render(items@[0])
            } else {
                render_items(v, (n - 1) as nat) + seq![','] + render(items@[n - 1])
            }
        },
        _ => Seq::empty(),
    }
}

/// The first `n` entries of object `v`, each as `key:value`, joined by commas.
pub open spec fn render_entries(v: Value, n: nat) -> Seq<char>
    decreases v, 0nat, n,
{
    match v {
        Value::Object(o) => {
            if n == 0 || n > o.entries().len() {
                Seq::empty()
            } else if n == 1 {
                o.entries()[0].0@ + seq![':'] + render(o.entries()[0].1)
            } else {
                render_entries(v, (n - 1) as nat) + seq![','] + o.entries()[n - 1].0@ + seq![':']
                    + render(o.entries()[n - 1].1)
            }
        },
        _ => Seq::empty(),
    }
}


impl Object {
    pub closed spec fn entries(&self) -> Seq<(String, Value)> {
        self.entries@
    }

    pub open spec fn wf(&self) -> bool {
        distinct_keys(self.entries())
    }

    pub fn new() -> (r: Object)
        ensures
            r.entries().len() == 0,
            r.wf(),
    {
        Object { entries: Vec::new() }
    }

    pub fn len(&self) -> (r: usize)
        ensures
            r == self.entries().len(),
    {
        self.entries.len()
    }

    /// The position of the entry with key `key`, if any.
    fn find(&self, key: &String) -> (r: Option<usize>)
        ensures
            r is None <==> !has_key(self.entries(), key@),
            r is Some ==> r->Some_0 < self.entries().len() && self.entries()[r->Some_0 as int].0@
                == key@,
    {
        let mut i: usize = 0;
        while i < self.entries.len()
            invariant
                i <= self.entries@.len(),
                forall|j: int| 0 <= j < i ==> self.entries@[j].0@ != key@,
            decreases self.entries@.len() - i,
        {
            if self.entries[i].0 == *key {
                return Some(i);
            }
            i += 1;
        }
        None
    }

    /// The value stored under `key`, if any.
    pub fn get(&self, key: &String) -> (r: Option<&Value>)
        requires
            self.wf(),
        ensures
            r is None <==> !has_key(self.entries(), key@),
            r is Some ==> *r->Some_0 == self.entries()[key_index(self.entries(), key@)].1,
    {
        match self.find(key) {
            Some(i) => {
                proof {
                    let k = key_index(self.entries(), key@);
                    assert(self.entries()[i as int].0@ == key@);
                    assert(k == i);
                }
                Some(&self.entries[i].1)
            },
            None => None,
        }
    }

    /// Stores `value` under `key` and returns the value it replaces, if any.
    pub fn insert(&mut self, key: String, value: Value) -> (r: Option<Value>)
        requires
            old(self).wf(),
        ensures
            final(self).wf(),
            final(self).entries() == inserted(old(self).entries(), key, value),
            r is None <==> !has_key(old(self).entries(), key@),
            r is Some ==> r->Some_0 == old(self).entries()[key_index(old(self).entries(), key@)].1,
    {
        let ghost k = key@;
        match self.find(&key) {
            Some(i) => {
                proof {
                    assert(key_index(self.entries(), k) == i);
                }
                let ghost s = self.entries@;
                let prev = self.entries.remove(i);
                self.entries.insert(i, (key, value));
                proof {
                    assert(self.entries@ =~= s.update(i as int, (key, value)));
                    lemma_inserted_keeps_keys_distinct(s, prev.0, value);
                }
                Some(prev.1)
            },
            None => {
                let ghost s = self.entries@;
                self.entries.push((key, value));
                proof {
                    lemma_inserted_keeps_keys_distinct(s, key, value);
                }
                None
            },
        }
    }
}

proof fn lemma_inserted_keeps_keys_distinct(s: Seq<(String, Value)>, k: String, v: Value)
    requires
        distinct_keys(s),
    ensures
        distinct_keys(inserted(s, k, v)),
{
}

/// Inserting a key twice leaves exactly one entry for it, holding the second value, at the
/// position the key had before the first insertion (or last, where it was new).
pub proof fn lemma_insert_twice_keeps_one_entry(
    s: Seq<(String, Value)>,
    k1: String,
    v1: Value,
    k2: String,
    v2: Value,
)
    requires
        distinct_keys(s),
        k1@ == k2@,
    ensures
        inserted(inserted(s, k1, v1), k2, v2) == inserted(s, k2, v2),
        distinct_keys(inserted(s, k2, v2)),
        ({
            let p = if has_key(s, k2@) {
                key_index(s, k2@)
            } else {
                s.len() as int
            };
            &&& 0 <= p < inserted(s, k2, v2).len()
            &&& inserted(s, k2, v2)[p] == (k2, v2)
            &&& forall|j: int|
                0 <= j < inserted(s, k2, v2).len() && j != p ==> inserted(s, k2, v2)[j].0@ != k2@
        }),
{
    let t = inserted(s, k1, v1);
    lemma_inserted_keeps_keys_distinct(s, k1, v1);
    lemma_inserted_keeps_keys_distinct(s, k2, v2);
    if has_key(s, k1@) {
        let i = key_index(s, k1@);
        assert(t[i].0@ == k2@);
        assert(has_key(t, k2@));
        assert(key_index(t, k2@) == i);
        assert(inserted(t, k2, v2) =~= inserted(s, k2, v2));
    } else {
        let n = s.len() as int;
        assert(t[n].0@ == k2@);
        assert(has_key(t, k2@));
        assert(key_index(t, k2@) == n);
        assert(inserted(t, k2, v2) =~= inserted(s, k2, v2));
    }
}

fn digit_text(d: u64) -> (r: &'static str)
    requires
        d < 10,
    ensures
        r@ == seq![digit(d as int)],
{
    proof {
        reveal_strlit("0");
        reveal_strlit("1");
        reveal_strlit("2");
        reveal_strlit("3");
        reveal_strlit("4");
        reveal_strlit("5");
        reveal_strlit("6");
        reveal_strlit("7");
        reveal_strlit("8");
        reveal_strlit("9");
    }
    if d == 0 {
        "0"
    } else if d == 1 {
        "1"
    } else if d == 2 {
        "2"
    } else if d == 3 {
        "3"
    } else if d == 4 {
        "4"
    } else if d == 5 {
        "5"
    } else if d == 6 {
        "6"
    } else if d == 7 {
        "7"
    } else if d == 8 {
        "8"
    } else {
        "9"
    }
}

/// The decimal text of `n`.
pub fn nat_to_text(n: u64) -> (r: String)
    ensures
        r@ == nat_text(n as nat),
    decreases n,
{
    if n < 10 {
        String::from_str(digit_text(n))
    } else {
        let mut s = nat_to_text(n / 10);
        s.append(digit_text(n % 10));
        s
    }
}

/// The decimal text of `n`, with a leading minus sign where it is negative.
pub fn int_to_text(n: i64) -> (r: String)
    ensures
        r@ == int_text(n as int),
{
    if n < 0 {
        let m: u64 = (0i128 - n as i128) as u64;
        let digits = nat_to_text(m);
        let mut s = String::from_str("-");
        proof {
            reveal_strlit("-");
        }
        s.append(digits.as_str());
        s
    } else {
        nat_to_text(n as u64)
    }
}

/// Renders `v` as text. Every value has a rendering.
pub fn render_text(v: &Value) -> (r: String)
    ensures
        r@ == render(*v),
    decreases v,
{
    match v {
        Value::Null => String::new(),
        Value::Boolean(b) => {
            proof {
                reveal_strlit("true");
                reveal_strlit("false");
            }
            if *b {
                String::from_str("true")
            } else {
                String::from_str("false")
            }
        },
        Value::Integer(n) => int_to_text(*n),
        Value::Bytes(s) => s.clone(),
        Value::Timestamp(t) => int_to_text(*t),
        Value::Array(items) => {
            proof {
                reveal_strlit("[");
                reveal_strlit("]");
            }
            let mut out = String::from_str("[");
            let mut i: usize = 0;
            while i < items.len()
                invariant
                    i <= items@.len(),
                    *v == Value::Array(*items),
                    out@ == seq!['['] + render_items(*v, i as nat),
                decreases items@.len() - i,
            {
                let ghost before = out@;
                proof {
                    reveal_strlit(",");
                    reveal_strlit(":");
                }
                if i > 0 {
                    out.append(",");
                }
                proof {
                    assert(decreases_to!(*v => v->Array_0));
                }
                let part = render_text(&items[i]);
                out.append(part.as_str());
                proof {
                    if i == 0 {
                        assert(before =~= seq!['[']);
                    } else {
                        assert(render_items(*v, (i + 1) as nat) == render_items(*v, i as nat)
                            + seq![','] + render(items@[i as int]));
                    }
                    assert(out@ =~= seq!['['] + render_items(*v, (i + 1) as nat));
                }
                i += 1;
            }
            out.append("]");
            out
        },
        Value::Object(o) => {
            proof {
                reveal_strlit("{");
                reveal_strlit("}");
            }
            let mut out = String::from_str("{");
            let mut i: usize = 0;
            while i < o.entries.len()
                invariant
                    i <= o.entries@.len(),
                    *v == Value::Object(*o),
                    out@ == seq!['{'] + render_entries(*v, i as nat),
                decreases o.entries@.len() - i,
            {
                let ghost before = out@;
                proof {
                    reveal_strlit(",");
                    reveal_strlit(":");
                }
                if i > 0 {
                    out.append(",");
                }
                out.append(o.entries[i].0.as_str());
                out.append(":");
                proof {
                    assert(decreases_to!(*v => v->Object_0));
                    assert(decreases_to!(o.entries => o.entries[i as int]));
                }
                let part = render_text(&o.entries[i].1);
                out.append(part.as_str());
                proof {
                    let e = o.entries@[i as int];
                    if i == 0 {
                        assert(render_entries(*v, 1) == e.0@ + seq![':'] + render(e.1));
                    } else {
                        assert(render_entries(*v, (i + 1) as nat) == render_entries(*v, i as nat)
                            + seq![','] + e.0@ + seq![':'] + render(e.1));
                    }
                    assert(out@ =~= seq!['{'] + render_entries(*v, (i + 1) as nat));
                }
                i += 1;
            }
            out.append("}");
            out
        },
    }
}

} // verus!
