use vstd::prelude::*;
use crate::number::Decimal;
use crate::text::{first_index, lemma_first_index};

verus! {

/// A semi-structured value as providers return it.
#[derive(Debug)]
pub enum Json {
    Null,
    Bool(bool),
    Num(Decimal),
    Str(String),
    Arr(Vec<Json>),
    Obj(Vec<Member>),
}

/// One `key: value` pair of an object.
#[derive(Debug)]
pub struct Member {
    pub key: String,
    pub value: Json,
}

/// The value of the first member from index `i` on whose key is `key`.
pub open spec fn lookup_from(members: Seq<Member>, key: Seq<char>, i: int) -> Option<Json>
    decreases members.len() - i,
{
    if i < 0 || i >= members.len() {
        None
    } else if members[i].key@ == key {
        Some(members[i].value)
    } else {
        lookup_from(members, key, i + 1)
    }
}

impl Json {
    /// The member `key` of an object; nothing for any other value.
    pub open spec fn field(self, key: Seq<char>) -> Option<Json> {
        match self {
            Json::Obj(ms) => lookup_from(ms@, key, 0),
            _ => None,
        }
    }

    /// The value at a dotted path such as `wind.speed`: each segment between dots
    /// names a member of the value reached so far.
    pub open spec fn at_path(self, path: Seq<char>) -> Option<Json>
        decreases path.len(),
    {
        let k = first_index(path, '.');
        match self.field(path.take(k as int)) {
            None => None,
            Some(w) => if k >= path.len() {
                Some(w)
            } else {
                w.at_path(path.skip(k + 1 as int))
            },
        }
    }

    pub open spec fn str_of(self) -> Option<Seq<char>> {
        match self {
            Json::Str(s) => Some(s@),
            _ => None,
        }
    }

    pub open spec fn array_of(self) -> Option<Seq<Json>> {
        match self {
            Json::Arr(a) => Some(a@),
            _ => None,
        }
    }

    /// The member named `key`, if this is an object that has one.
    pub fn get(&self, key: &str) -> (r: Option<&Json>)
        ensures
            r matches Some(x) ==> self.field(key@) == Some(*x),
            r is None ==> self.field(key@) is None,
    {
        match self {
            Json::Obj(ms) => {
                let wanted = String::from_str(key);
                let mut i: usize = 0;
                while i < ms.len()
                    invariant
                        i <= ms@.len(),
                        wanted@ == key@,
                        self.field(key@) == lookup_from(ms@, key@, 0),
                        lookup_from(ms@, key@, 0) == lookup_from(ms@, key@, i as int),
                    decreases ms@.len() - i,
                {
                    if ms[i].key == wanted {
                        assert(lookup_from(ms@, key@, i as int) == Some(ms@[i as int].value));
                        return Some(&ms[i].value);
                    }
                    i = i + 1;
                }
                None
            },
            _ => None,
        }
    }

    /// The text, if this is a string.
    pub fn as_str(&self) -> (r: Option<&str>)
        ensures
            r matches Some(s) ==> self.str_of() == Some(s@),
            r is None ==> self.str_of() is None,
    {
        match self {
            Json::Str(s) => Some(s.as_str()),
            _ => None,
        }
    }

    /// The elements, if this is an array.
    pub fn as_array(&self) -> (r: Option<&Vec<Json>>)
        ensures
            r matches Some(a) ==> self.array_of() == Some(a@),
            r is None ==> self.array_of() is None,
    {
        match self {
            Json::Arr(a) => Some(a),
            _ => None,
        }
    }
}

/// The value at a dotted path, or nothing when a segment is missing.
pub fn safe_get<'a>(v: &'a Json, path: &str) -> (r: Option<&'a Json>)
    ensures
        r matches Some(x) ==> v.at_path(path@) == Some(*x),
        r is None ==> v.at_path(path@) is None,
{
    let n = path.unicode_len();
    let mut cur: &Json = v;
    let mut start: usize = 0;
    let mut i: usize = 0;
    proof {
        assert(path@.skip(0) =~= path@);
    }
    loop
        invariant
            start <= i <= n,
            n == path@.len(),
            forall|j: int| start <= j < i && j < n ==> path@[j] != '.',
            v.at_path(path@) == cur.at_path(path@.skip(start as int)),
        decreases n - i,
    {
        if i == n || path.get_char(i) == '.' {
            let seg = path.substring_char(start, i);
            let ghost rest = path@.skip(start as int);
            proof {
                lemma_first_index(rest, '.');
                assert(first_index(rest, '.') == i - start) by {
                    if first_index(rest, '.') < i - start {
                        assert(rest[first_index(rest, '.') as int] == path@[start + first_index(rest, '.')]);
                    }
                    if first_index(rest, '.') > i - start {
                        assert(rest[i - start] == path@[i as int]);
                    }
                }
                assert(seg@ =~= rest.take(i - start));
                assert(i < n ==> rest.skip(i - start + 1) =~= path@.skip(i + 1));
            }
            match cur.get(seg) {
                None => {
                    return None;
                },
                Some(w) => {
                    if i == n {
                        return Some(w);
                    }
                    cur = w;
                    start = i + 1;
                },
            }
        }
        i = i + 1;
    }
}

} // verus!
