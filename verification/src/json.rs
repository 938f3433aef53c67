use vstd::prelude::*;

use crate::text::{chars_equal, chars_of};

verus! {

/// A JSON number, held as serde_json holds one: a non-negative integer, a negative
/// integer, or a floating-point number (kept here by its decimal text).
#[derive(Debug, Clone, PartialEq)]
pub enum JsonNumber {
    PosInt(u64),
    NegInt(i64),
    Float(String),
}

/// What a number is, with its text as a character sequence.
pub enum NumberModel {
    PosInt(u64),
    NegInt(i64),
    Float(Seq<char>),
}

impl JsonNumber {
    pub open spec fn model(&self) -> NumberModel {
        match self {
            JsonNumber::PosInt(n) => NumberModel::PosInt(*n),
            JsonNumber::NegInt(n) => NumberModel::NegInt(*n),
            JsonNumber::Float(t) => NumberModel::Float(t@),
        }
    }
}

/// A JSON document. Objects keep their entries in order; a key is looked up by its
/// first entry.
#[derive(Debug, PartialEq)]
pub enum JsonValue {
    Null,
    Bool(bool),
    Number(JsonNumber),
    String(String),
    Array(Vec<JsonValue>),
    Object(Vec<(String, JsonValue)>),
}

// ---------------------------------------------------------------------------
// JSON Pointer (RFC 6901), as `serde_json::Value::pointer` reads one
// ---------------------------------------------------------------------------

/// `s` split at each `sep`, as `str::split` splits it: always at least one piece.
pub open spec fn split_on(s: Seq<char>, sep: char) -> Seq<Seq<char>>
    decreases s.len(),
{
    if s.len() == 0 {
        seq![Seq::<char>::empty()]
    } else {
        let r = split_on(s.drop_last(), sep);
        if s.last() == sep {
            r.push(Seq::<char>::empty())
        } else {
            r.update(r.len() - 1, r.last().push(s.last()))
        }
    }
}

/// Every non-overlapping occurrence of `pat` in `s`, from the left, replaced by `rep`,
/// as `str::replace` does.
pub open spec fn replace_all(s: Seq<char>, pat: Seq<char>, rep: Seq<char>) -> Seq<char>
    decreases s.len(),
{
    if pat.len() == 0 || s.len() < pat.len() {
        s
    } else if s.take(pat.len() as int) == pat {
        rep + replace_all(s.skip(pat.len() as int), pat, rep)
    } else {
        seq![s[0]] + replace_all(s.skip(1), pat, rep)
    }
}

/// A reference token with its escapes undone: `~1` becomes `/`, then `~0` becomes `~`.
pub open spec fn unescape_token(t: Seq<char>) -> Seq<char> {
    replace_all(replace_all(t, seq!['~', '1'], seq!['/']), seq!['~', '0'], seq!['~'])
}

/// The unescaped reference tokens of a pointer that starts with `/`.
pub open spec fn pointer_tokens(p: Seq<char>) -> Seq<Seq<char>> {
    split_on(p, '/').drop_first().map_values(|t: Seq<char>| unescape_token(t))
}

pub open spec fn is_digit(c: char) -> bool {
    '0' <= c && c <= '9'
}

pub open spec fn all_digits(t: Seq<char>) -> bool {
    forall|i: int| 0 <= i < t.len() ==> is_digit(#[trigger] t[i])
}

/// The value of a string of decimal digits.
pub open spec fn digits_value(t: Seq<char>) -> nat
    decreases t.len(),
{
    if t.len() == 0 {
        0
    } else {
        digits_value(t.drop_last()) * 10 + ((t.last() as u32 - '0' as u32) as nat)
    }
}

/// An array index token: digits without a sign or a leading zero, that fit in `usize`.
pub open spec fn index_of_token(t: Seq<char>) -> Option<nat> {
    if t.len() == 0 || t[0] == '+' || (t[0] == '0' && t.len() != 1) || !all_digits(t)
        || digits_value(t) > usize::MAX {
        None
    } else {
        Some(digits_value(t))
    }
}

/// The position of the first entry of `es` whose key is `key`, or -1.
pub open spec fn key_index(es: Seq<(String, JsonValue)>, key: Seq<char>) -> int
    decreases es.len(),
{
    if es.len() == 0 {
        -1
    } else if es[0].0@ == key {
        0
    } else {
        let r = key_index(es.drop_first(), key);
        if r < 0 {
            -1
        } else {
            r + 1
        }
    }
}

/// The child of `v` that one reference token names.
pub open spec fn child_of(v: JsonValue, token: Seq<char>) -> Option<JsonValue> {
    match v {
        JsonValue::Object(es) => {
            let j = key_index(es@, token);
            if j < 0 {
                None
            } else {
                Some(es@[j].1)
            }
        },
        JsonValue::Array(list) => match index_of_token(token) {
            Some(i) => if i < list@.len() {
                Some(list@[i as int])
            } else {
                None
            },
            None => None,
        },
        _ => None,
    }
}

/// The value that a sequence of reference tokens leads to from `v`.
pub open spec fn lookup(v: JsonValue, tokens: Seq<Seq<char>>) -> Option<JsonValue>
    decreases tokens.len(),
{
    if tokens.len() == 0 {
        Some(v)
    } else {
        match child_of(v, tokens[0]) {
            Some(c) => lookup(c, tokens.drop_first()),
            None => None,
        }
    }
}

/// The value that the JSON Pointer `p` designates in `v`.
pub open spec fn pointer(v: JsonValue, p: Seq<char>) -> Option<JsonValue> {
    if p.len() == 0 {
        Some(v)
    } else if p[0] != '/' {
        None
    } else {
        lookup(v, pointer_tokens(p))
    }
}

// ---------------------------------------------------------------------------
// Lemmas on the pointer model
// ---------------------------------------------------------------------------

pub proof fn lemma_key_index_range(es: Seq<(String, JsonValue)>, key: Seq<char>)
    ensures
        -1 <= key_index(es, key) < es.len(),
        key_index(es, key) >= 0 ==> es[key_index(es, key)].0@ == key,
        key_index(es, key) < 0 ==> forall|j: int| 0 <= j < es.len() ==> es[j].0@ != key,
    decreases es.len(),
{
    if es.len() > 0 && es[0].0@ != key {
        lemma_key_index_range(es.drop_first(), key);
        if key_index(es, key) < 0 {
            assert forall|j: int| 0 <= j < es.len() implies es[j].0@ != key by {
                if j > 0 {
                    assert(es.drop_first()[j - 1] == es[j]);
                }
            }
        }
    }
}

/// The first entry with the key is the one `key_index` names.
pub proof fn lemma_key_index_first(es: Seq<(String, JsonValue)>, key: Seq<char>, i: int)
    requires
        0 <= i < es.len(),
        es[i].0@ == key,
        forall|j: int| 0 <= j < i ==> es[j].0@ != key,
    ensures
        key_index(es, key) == i,
    decreases es.len(),
{
    if i > 0 {
        assert forall|j: int| 0 <= j < i - 1 implies es.drop_first()[j].0@ != key by {
            assert(es.drop_first()[j] == es[j + 1]);
        }
        lemma_key_index_first(es.drop_first(), key, i - 1);
    }
}

/// `key_index` reads only the keys.
proof fn lemma_key_index_same_keys(es: Seq<(String, JsonValue)>, rs: Seq<(String, JsonValue)>, key: Seq<char>)
    requires
        es.len() == rs.len(),
        forall|k: int| 0 <= k < es.len() ==> (#[trigger] es[k]).0@ == rs[k].0@,
    ensures
        key_index(es, key) == key_index(rs, key),
    decreases es.len(),
{
    if es.len() > 0 {
        assert(es[0].0@ == rs[0].0@);
        assert forall|k: int| 0 <= k < es.drop_first().len() implies (#[trigger] es.drop_first()[k]).0@
            == rs.drop_first()[k].0@ by {
            assert(es[k + 1].0@ == rs[k + 1].0@);
        }
        lemma_key_index_same_keys(es.drop_first(), rs.drop_first(), key);
    }
}

proof fn lemma_split_nonempty(s: Seq<char>, sep: char)
    ensures
        split_on(s, sep).len() >= 1,
    decreases s.len(),
{
    if s.len() > 0 {
        lemma_split_nonempty(s.drop_last(), sep);
    }
}

proof fn lemma_digits_value_grows(t: Seq<char>, i: int)
    requires
        0 <= i <= t.len(),
    ensures
        digits_value(t.take(i)) <= digits_value(t),
    decreases t.len(),
{
    if i < t.len() {
        lemma_digits_value_grows(t.drop_last(), i);
        assert(t.drop_last().take(i) =~= t.take(i));
    } else {
        assert(t.take(i) =~= t);
    }
}

// ---------------------------------------------------------------------------
// Executable pointer reading
// ---------------------------------------------------------------------------

/// The pieces of `s` between the separators.
fn split_chars(s: &Vec<char>, sep: char) -> (r: Vec<Vec<char>>)
    ensures
        r@.len() == split_on(s@, sep).len(),
        forall|k: int| 0 <= k < r@.len() ==> (#[trigger] r@[k])@ == split_on(s@, sep)[k],
{
    let mut done: Vec<Vec<char>> = Vec::new();
    let mut cur: Vec<char> = Vec::new();
    let mut i: usize = 0;
    while i < s.len()
        invariant
            i <= s@.len(),
            done@.len() + 1 == split_on(s@.take(i as int), sep).len(),
            forall|k: int| 0 <= k < done@.len() ==> (#[trigger] done@[k])@ == split_on(
                s@.take(i as int),
                sep,
            )[k],
            cur@ == split_on(s@.take(i as int), sep).last(),
        decreases s@.len() - i,
    {
        let ghost before = s@.take(i as int);
        assert(s@.take(i + 1).drop_last() =~= before);
        proof {
            lemma_split_nonempty(before, sep);
        }
        if s[i] == sep {
            done.push(cur);
            cur = Vec::new();
            assert(cur@ =~= Seq::<char>::empty());
        } else {
            cur.push(s[i]);
        }
        i = i + 1;
    }
    assert(s@.take(s@.len() as int) =~= s@);
    done.push(cur);
    done
}

/// `s` with every `a b` pair, from the left, replaced by `rep`.
fn replace_pair(s: &Vec<char>, a: char, b: char, rep: char) -> (r: Vec<char>)
    ensures
        r@ == replace_all(s@, seq![a, b], seq![rep]),
{
    let ghost pat = seq![a, b];
    let mut out: Vec<char> = Vec::new();
    let mut i: usize = 0;
    assert(s@.skip(0) =~= s@);
    while i < s.len()
        invariant
            i <= s@.len(),
            pat == seq![a, b],
            replace_all(s@, pat, seq![rep]) == out@ + replace_all(s@.skip(i as int), pat, seq![rep]),
        decreases s@.len() - i,
    {
        let ghost rest = s@.skip(i as int);
        if i + 1 < s.len() && s[i] == a && s[i + 1] == b {
            assert(rest.take(2) =~= pat);
            assert(rest.skip(2) =~= s@.skip(i + 2));
            out.push(rep);
            assert(out@ =~= out@.drop_last() + seq![rep]);
            i = i + 2;
        } else {
            proof {
                if rest.len() >= 2 {
                    assert(rest.take(2) != pat) by {
                        if rest.take(2) == pat {
                            assert(rest.take(2)[0] == s@[i as int]);
                            assert(rest.take(2)[1] == s@[i + 1]);
                        }
                    }
                    assert(rest.skip(1) =~= s@.skip(i + 1));
                } else {
                    assert(rest =~= seq![s@[i as int]]);
                    assert(s@.skip(i + 1) =~= Seq::<char>::empty());
                }
            }
            out.push(s[i]);
            i = i + 1;
        }
    }
    assert(s@.skip(i as int) =~= Seq::<char>::empty());
    assert(out@ + Seq::<char>::empty() =~= out@);
    out
}

/// The unescaped reference tokens of `p`, which starts with `/`.
fn tokens_of(p: &Vec<char>) -> (r: Vec<Vec<char>>)
    requires
        p@.len() > 0,
    ensures
        r@.len() == pointer_tokens(p@).len(),
        forall|k: int| 0 <= k < r@.len() ==> (#[trigger] r@[k])@ == pointer_tokens(p@)[k],
{
    let pieces = split_chars(p, '/');
    proof {
        lemma_split_nonempty(p@, '/');
    }
    let mut r: Vec<Vec<char>> = Vec::new();
    let mut i: usize = 1;
    while i < pieces.len()
        invariant
            1 <= i <= pieces@.len(),
            pieces@.len() == split_on(p@, '/').len(),
            forall|k: int| 0 <= k < pieces@.len() ==> (#[trigger] pieces@[k])@ == split_on(p@, '/')[k],
            r@.len() == i - 1,
            forall|k: int| 0 <= k < r@.len() ==> (#[trigger] r@[k])@ == pointer_tokens(p@)[k],
        decreases pieces@.len() - i,
    {
        let once = replace_pair(&pieces[i], '~', '1', '/');
        let twice = replace_pair(&once, '~', '0', '~');
        assert(twice@ == pointer_tokens(p@)[i - 1]);
        r.push(twice);
        i = i + 1;
    }
    r
}

/// The array index that a token names, if it names one.
fn token_index(t: &Vec<char>) -> (r: Option<usize>)
    ensures
        match r {
            Some(i) => index_of_token(t@) == Some(i as nat),
            None => index_of_token(t@) is None,
        },
{
    if t.len() == 0 || t[0] == '+' || (t[0] == '0' && t.len() != 1) {
        return None;
    }
    let mut acc: usize = 0;
    let mut i: usize = 0;
    while i < t.len()
        invariant
            i <= t@.len(),
            all_digits(t@.take(i as int)),
            acc as nat == digits_value(t@.take(i as int)),
        decreases t@.len() - i,
    {
        let c = t[i];
        assert(t@.take(i + 1).drop_last() =~= t@.take(i as int));
        if !('0' <= c && c <= '9') {
            assert(!all_digits(t@));
            return None;
        }
        let d: usize = ((c as u32) - ('0' as u32)) as usize;
        if acc > (usize::MAX - d) / 10 {
            assert(digits_value(t@.take(i + 1)) > usize::MAX) by (nonlinear_arith)
                requires
                    acc > (usize::MAX - d) / 10,
                    digits_value(t@.take(i + 1)) == acc * 10 + d,
                    d <= 9,
            ;
            proof {
                lemma_digits_value_grows(t@, i + 1);
            }
            return None;
        }
        assert(acc * 10 + d <= usize::MAX) by (nonlinear_arith)
            requires
                acc <= (usize::MAX - d) / 10,
                d <= 9,
        ;
        acc = acc * 10 + d;
        i = i + 1;
    }
    assert(t@.take(t@.len() as int) =~= t@);
    Some(acc)
}

/// The position of the first entry whose key is `key`, if there is one.
pub(crate) fn find_key(es: &Vec<(String, JsonValue)>, key: &Vec<char>) -> (r: Option<usize>)
    ensures
        match r {
            Some(j) => j < es@.len() && key_index(es@, key@) == j as int,
            None => key_index(es@, key@) < 0,
        },
{
    let mut j: usize = 0;
    while j < es.len()
        invariant
            j <= es@.len(),
            forall|k: int| 0 <= k < j ==> es@[k].0@ != key@,
        decreases es@.len() - j,
    {
        let kc = chars_of(es[j].0.as_str());
        if chars_equal(&kc, key) {
            proof {
                lemma_key_index_first(es@, key@, j as int);
            }
            return Some(j);
        }
        j = j + 1;
    }
    proof {
        lemma_key_index_range(es@, key@);
        if key_index(es@, key@) >= 0 {
            assert(es@[key_index(es@, key@)].0@ == key@);
        }
    }
    None
}

/// The child of `v` that the token names.
fn child<'a>(v: &'a JsonValue, token: &Vec<char>) -> (r: Option<&'a JsonValue>)
    ensures
        match r {
            Some(c) => child_of(*v, token@) == Some(*c),
            None => child_of(*v, token@) is None,
        },
{
    match v {
        JsonValue::Object(es) => match find_key(es, token) {
            Some(j) => Some(&es[j].1),
            None => None,
        },
        JsonValue::Array(list) => match token_index(token) {
            Some(i) => if i < list.len() {
                Some(&list[i])
            } else {
                None
            },
            None => None,
        },
        _ => None,
    }
}

impl JsonValue {
    /// The value that the JSON Pointer `path` designates, as `serde_json::Value::pointer`
    /// finds it.
    pub fn pointer<'a>(&'a self, path: &str) -> (r: Option<&'a JsonValue>)
        ensures
            match r {
                Some(x) => pointer(*self, path@) == Some(*x),
                None => pointer(*self, path@) is None,
            },
    {
        let p = chars_of(path);
        if p.len() == 0 {
            return Some(self);
        }
        if p[0] != '/' {
            return None;
        }
        let tokens = tokens_of(&p);
        let ghost toks = pointer_tokens(p@);
        assert(pointer(*self, path@) == lookup(*self, toks));
        let mut cur: &JsonValue = self;
        let mut i: usize = 0;
        assert(toks.skip(0) =~= toks);
        while i < tokens.len()
            invariant
                i <= tokens@.len(),
                tokens@.len() == toks.len(),
                forall|k: int| 0 <= k < tokens@.len() ==> (#[trigger] tokens@[k])@ == toks[k],
                lookup(*self, toks) == lookup(*cur, toks.skip(i as int)),
                pointer(*self, path@) == lookup(*self, toks),
            decreases tokens@.len() - i,
        {
            assert(toks.skip(i as int).drop_first() =~= toks.skip(i + 1));
            assert(toks.skip(i as int)[0] == toks[i as int]);
            assert(tokens@[i as int]@ == toks[i as int]);
            match child(cur, &tokens[i]) {
                Some(c) => {
                    cur = c;
                },
                None => {
                    assert(child_of(*cur, toks.skip(i as int)[0]) is None);
                    assert(lookup(*cur, toks.skip(i as int)) is None);
                    return None;
                },
            }
            i = i + 1;
        }
        assert(toks.skip(i as int) =~= Seq::<Seq<char>>::empty());
        Some(cur)
    }
}

} // verus!

verus! {

// ---------------------------------------------------------------------------
// Writing through a pointer
// ---------------------------------------------------------------------------

/// `r` is `v` with the value that `tokens` leads to replaced by `new` (the path resolves).
pub open spec fn replaced(v: JsonValue, tokens: Seq<Seq<char>>, new: JsonValue, r: JsonValue) -> bool
    decreases tokens.len(),
{
    if tokens.len() == 0 {
        r == new
    } else {
        match v {
            JsonValue::Object(es) => {
                let j = key_index(es@, tokens[0]);
                match r {
                    JsonValue::Object(rs) => {
                        &&& 0 <= j < es@.len()
                        &&& rs@.len() == es@.len()
                        &&& forall|k: int| 0 <= k < es@.len() && k != j ==> rs@[k] == es@[k]
                        &&& rs@[j].0 == es@[j].0
                        &&& replaced(es@[j].1, tokens.drop_first(), new, rs@[j].1)
                    },
                    _ => false,
                }
            },
            JsonValue::Array(list) => match r {
                JsonValue::Array(rl) => match index_of_token(tokens[0]) {
                    Some(ix) => {
                        let j = ix as int;
                        &&& j < list@.len()
                        &&& rl@.len() == list@.len()
                        &&& forall|k: int| 0 <= k < list@.len() && k != j ==> rl@[k] == list@[k]
                        &&& replaced(list@[j], tokens.drop_first(), new, rl@[j])
                    },
                    None => false,
                },
                _ => false,
            },
            _ => false,
        }
    }
}

/// `r` is `v` with the value at the JSON Pointer `p` replaced by `new`.
pub open spec fn replaced_at(v: JsonValue, p: Seq<char>, new: JsonValue, r: JsonValue) -> bool {
    if p.len() == 0 {
        r == new
    } else {
        replaced(v, pointer_tokens(p), new, r)
    }
}

fn replace_in(v: JsonValue, tokens: &Vec<Vec<char>>, Ghost(toks): Ghost<Seq<Seq<char>>>, i: usize, value: JsonValue) -> (r: JsonValue)
    requires
        i <= tokens@.len(),
        tokens@.len() == toks.len(),
        forall|k: int| 0 <= k < tokens@.len() ==> (#[trigger] tokens@[k])@ == toks[k],
        lookup(v, toks.skip(i as int)) is Some,
    ensures
        replaced(v, toks.skip(i as int), value, r),
    decreases tokens@.len() - i,
{
    let ghost rest = toks.skip(i as int);
    if i == tokens.len() {
        assert(rest.len() == 0);
        return value;
    }
    assert(rest[0] == toks[i as int]);
    assert(tokens@[i as int]@ == toks[i as int]);
    assert(rest.drop_first() =~= toks.skip(i + 1));
    match v {
        JsonValue::Object(mut es) => {
            let ghost old_es = es@;
            match find_key(&es, &tokens[i]) {
                Some(j) => {
                    let (k, c) = es.remove(j);
                    let nc = replace_in(c, tokens, Ghost(toks), i + 1, value);
                    es.insert(j, (k, nc));
                    assert(es@.len() == old_es.len());
                    assert forall|m: int| 0 <= m < old_es.len() && m != j implies es@[m] == old_es[m] by {}
                    JsonValue::Object(es)
                },
                None => {
                    assert(false);
                    JsonValue::Object(es)
                },
            }
        },
        JsonValue::Array(mut list) => {
            let ghost old_list = list@;
            match token_index(&tokens[i]) {
                Some(ix) => {
                    if ix < list.len() {
                        let c = list.remove(ix);
                        let nc = replace_in(c, tokens, Ghost(toks), i + 1, value);
                        list.insert(ix, nc);
                        assert forall|m: int| 0 <= m < old_list.len() && m != ix implies list@[m] == old_list[m] by {}
                        JsonValue::Array(list)
                    } else {
                        assert(false);
                        JsonValue::Array(list)
                    }
                },
                None => {
                    assert(false);
                    JsonValue::Array(list)
                },
            }
        },
        other => {
            assert(false);
            other
        },
    }
}

/// Reading back through the same path gives what was written there.
pub proof fn lemma_replaced_lookup(v: JsonValue, tokens: Seq<Seq<char>>, new: JsonValue, r: JsonValue)
    requires
        replaced(v, tokens, new, r),
    ensures
        lookup(r, tokens) == Some(new),
    decreases tokens.len(),
{
    if tokens.len() > 0 {
        match v {
            JsonValue::Object(es) => {
                match r {
                    JsonValue::Object(rs) => {
                        let j = key_index(es@, tokens[0]);
                        assert forall|k: int| 0 <= k < es@.len() implies (#[trigger] es@[k]).0@ == rs@[k].0@ by {
                            if k != j {
                                assert(rs@[k] == es@[k]);
                            }
                        }
                        lemma_key_index_same_keys(es@, rs@, tokens[0]);
                        lemma_replaced_lookup(es@[j].1, tokens.drop_first(), new, rs@[j].1);
                    },
                    _ => {},
                }
            },
            JsonValue::Array(list) => {
                match r {
                    JsonValue::Array(rl) => {
                        let j = index_of_token(tokens[0]).unwrap() as int;
                        lemma_replaced_lookup(list@[j], tokens.drop_first(), new, rl@[j]);
                    },
                    _ => {},
                }
            },
            _ => {},
        }
    }
}

/// Once a value is written at a JSON Pointer that resolves, the same pointer reads it back.
pub proof fn lemma_pointer_reads_back_write(v: JsonValue, p: Seq<char>, new: JsonValue, r: JsonValue)
    requires
        pointer(v, p) is Some,
        replaced_at(v, p, new, r),
    ensures
        pointer(r, p) == Some(new),
{
    if p.len() > 0 {
        lemma_replaced_lookup(v, pointer_tokens(p), new, r);
    }
}

impl JsonValue {
    /// Writes `value` where the JSON Pointer `path` leads, as an assignment through
    /// `serde_json::Value::pointer_mut` does; tells whether the path resolved. Where it
    /// does not, nothing changes.
    pub fn replace_at(&mut self, path: &str, value: JsonValue) -> (r: bool)
        ensures
            r == (pointer(*old(self), path@) is Some),
            r ==> replaced_at(*old(self), path@, value, *final(self)),
            !r ==> *final(self) == *old(self),
    {
        if self.pointer(path).is_none() {
            return false;
        }
        let p = chars_of(path);
        if p.len() == 0 {
            *self = value;
            return true;
        }
        let tokens = tokens_of(&p);
        let ghost toks = pointer_tokens(p@);
        assert(toks.skip(0) =~= toks);
        let mut current = JsonValue::Null;
        std::mem::swap(&mut current, self);
        let updated = replace_in(current, &tokens, Ghost(toks), 0, value);
        *self = updated;
        true
    }
}

} // verus!

verus! {

// ---------------------------------------------------------------------------
// Reading single values
// ---------------------------------------------------------------------------

pub open spec fn str_of(v: JsonValue) -> Option<Seq<char>> {
    match v {
        JsonValue::String(s) => Some(s@),
        _ => None,
    }
}

pub open spec fn u64_of(v: JsonValue) -> Option<u64> {
    match v {
        JsonValue::Number(JsonNumber::PosInt(n)) => Some(n),
        _ => None,
    }
}

pub open spec fn bool_of(v: JsonValue) -> Option<bool> {
    match v {
        JsonValue::Bool(b) => Some(b),
        _ => None,
    }
}

/// The value of `key` in an object, as `serde_json::Value::get` with a string key finds it.
pub open spec fn field_of(v: JsonValue, key: Seq<char>) -> Option<JsonValue> {
    match v {
        JsonValue::Object(es) => {
            let j = key_index(es@, key);
            if j < 0 {
                None
            } else {
                Some(es@[j].1)
            }
        },
        _ => None,
    }
}

impl JsonValue {
    /// The string this value holds, if it is a string.
    pub fn as_str(&self) -> (r: Option<&str>)
        ensures
            match r {
                Some(s) => str_of(*self) == Some(s@),
                None => str_of(*self) is None,
            },
    {
        match self {
            JsonValue::String(s) => Some(s.as_str()),
            _ => None,
        }
    }

    /// The number this value holds, if it is a non-negative integer.
    pub fn as_u64(&self) -> (r: Option<u64>)
        ensures
            r == u64_of(*self),
    {
        match self {
            JsonValue::Number(JsonNumber::PosInt(n)) => Some(*n),
            _ => None,
        }
    }

    /// The boolean this value holds, if it is one.
    pub fn as_bool(&self) -> (r: Option<bool>)
        ensures
            r == bool_of(*self),
    {
        match self {
            JsonValue::Bool(b) => Some(*b),
            _ => None,
        }
    }

    /// The value of `key`, if this value is an object that has it.
    pub fn get(&self, key: &str) -> (r: Option<&JsonValue>)
        ensures
            match r {
                Some(x) => field_of(*self, key@) == Some(*x),
                None => field_of(*self, key@) is None,
            },
    {
        match self {
            JsonValue::Object(es) => {
                let k = chars_of(key);
                match find_key(es, &k) {
                    Some(j) => Some(&es[j].1),
                    None => None,
                }
            },
            _ => None,
        }
    }

    /// A copy of this value.
    pub fn deep_clone(&self) -> (r: JsonValue)
        ensures
            same_json(r, *self),
        decreases self,
    {
        match self {
            JsonValue::Null => JsonValue::Null,
            JsonValue::Bool(b) => JsonValue::Bool(*b),
            JsonValue::Number(JsonNumber::PosInt(n)) => JsonValue::Number(JsonNumber::PosInt(*n)),
            JsonValue::Number(JsonNumber::NegInt(n)) => JsonValue::Number(JsonNumber::NegInt(*n)),
            JsonValue::Number(JsonNumber::Float(t)) => JsonValue::Number(JsonNumber::Float(t.clone())),
            JsonValue::String(s) => JsonValue::String(s.clone()),
            JsonValue::Array(list) => {
                let mut out: Vec<JsonValue> = Vec::new();
                let mut i: usize = 0;
                while i < list.len()
                    invariant
                        i <= list@.len(),
                        *self == JsonValue::Array(*list),
                        out@.len() == i,
                        forall|k: int| 0 <= k < i ==> same_json(#[trigger] out@[k], list@[k]),
                    decreases list@.len() - i,
                {
                    proof {
                        broadcast use vstd::std_specs::vec::group_vec_axioms;
                        assert(decreases_to!(*list => list[i as int]));
                        assert(decreases_to!(*self => (*self)->Array_0));
                        assert(decreases_to!(*self => list[i as int]));
                    }
                    let c = list[i].deep_clone();
                    out.push(c);
                    i = i + 1;
                }
                JsonValue::Array(out)
            },
            JsonValue::Object(es) => {
                let mut out: Vec<(String, JsonValue)> = Vec::new();
                let mut i: usize = 0;
                while i < es.len()
                    invariant
                        i <= es@.len(),
                        *self == JsonValue::Object(*es),
                        out@.len() == i,
                        forall|k: int| 0 <= k < i ==> (#[trigger] out@[k]).0@ == es@[k].0@ && same_json(out@[k].1, es@[k].1),
                    decreases es@.len() - i,
                {
                    proof {
                        broadcast use vstd::std_specs::vec::group_vec_axioms;
                        assert(decreases_to!(*es => es[i as int]));
                        assert(decreases_to!(*self => (*self)->Object_0));
                        assert(decreases_to!(es[i as int] => es[i as int].1));
                        assert(decreases_to!(*self => es[i as int].1));
                    }
                    let k = es[i].0.clone();
                    let c = es[i].1.deep_clone();
                    out.push((k, c));
                    i = i + 1;
                }
                JsonValue::Object(out)
            },
        }
    }
}

/// Two documents with the same structure, the same strings and the same numbers.
pub open spec fn same_json(a: JsonValue, b: JsonValue) -> bool
    decreases a,
{
    match a {
        JsonValue::Null => b is Null,
        JsonValue::Bool(x) => b == JsonValue::Bool(x),
        JsonValue::Number(JsonNumber::PosInt(n)) => b == JsonValue::Number(JsonNumber::PosInt(n)),
        JsonValue::Number(JsonNumber::NegInt(n)) => b == JsonValue::Number(JsonNumber::NegInt(n)),
        JsonValue::Number(JsonNumber::Float(t)) => match b {
            JsonValue::Number(JsonNumber::Float(u)) => t@ == u@,
            _ => false,
        },
        JsonValue::String(s) => match b {
            JsonValue::String(u) => s@ == u@,
            _ => false,
        },
        JsonValue::Array(x) => match b {
            JsonValue::Array(y) => x@.len() == y@.len() && forall|i: int|
                0 <= i < x@.len() ==> same_json(#[trigger] x[i], y[i]),
            _ => false,
        },
        JsonValue::Object(x) => match b {
            JsonValue::Object(y) => x@.len() == y@.len() && forall|i: int|
                0 <= i < x@.len() ==> (#[trigger] x[i]).0@ == y[i].0@ && same_json(x[i].1, y[i].1),
            _ => false,
        },
    }
}

impl Clone for JsonValue {
    /// A copy of the document (see `deep_clone`).
    fn clone(&self) -> (r: Self)
        ensures
            same_json(r, *self),
    {
        self.deep_clone()
    }
}

// ---------------------------------------------------------------------------
// `same_json` is an equivalence that reading and writing respect
// ---------------------------------------------------------------------------

/// Every document is the same as itself.
pub proof fn lemma_same_json_refl(a: JsonValue)
    ensures
        same_json(a, a),
    decreases a,
{
    broadcast use vstd::std_specs::vec::group_vec_axioms;

    match a {
        JsonValue::Array(x) => {
            assert forall|i: int| 0 <= i < x@.len() implies same_json(#[trigger] x[i], x[i]) by {
                assert(decreases_to!(x => x[i]));
                lemma_same_json_refl(x[i]);
            }
        },
        JsonValue::Object(x) => {
            assert forall|i: int| 0 <= i < x@.len() implies (#[trigger] x[i]).0@ == x[i].0@ && same_json(
                x[i].1,
                x[i].1,
            ) by {
                assert(decreases_to!(x => x[i]));
                assert(decreases_to!(x[i] => x[i].1));
                lemma_same_json_refl(x[i].1);
            }
        },
        _ => {},
    }
}

/// `same_json` goes both ways.
pub proof fn lemma_same_json_symm(a: JsonValue, b: JsonValue)
    requires
        same_json(a, b),
    ensures
        same_json(b, a),
    decreases a,
{
    broadcast use vstd::std_specs::vec::group_vec_axioms;

    match a {
        JsonValue::Array(x) => match b {
            JsonValue::Array(y) => {
                assert forall|i: int| 0 <= i < y@.len() implies same_json(#[trigger] y[i], x[i]) by {
                    assert(decreases_to!(x => x[i]));
                    lemma_same_json_symm(x[i], y[i]);
                }
            },
            _ => {},
        },
        JsonValue::Object(x) => match b {
            JsonValue::Object(y) => {
                assert forall|i: int| 0 <= i < y@.len() implies (#[trigger] y[i]).0@ == x[i].0@ && same_json(
                    y[i].1,
                    x[i].1,
                ) by {
                    assert(decreases_to!(x => x[i]));
                    assert(decreases_to!(x[i] => x[i].1));
                    lemma_same_json_symm(x[i].1, y[i].1);
                }
            },
            _ => {},
        },
        JsonValue::Number(JsonNumber::Float(t)) => {},
        JsonValue::String(t) => {},
        _ => {},
    }
}

/// `same_json` chains.
pub proof fn lemma_same_json_trans(a: JsonValue, b: JsonValue, c: JsonValue)
    requires
        same_json(a, b),
        same_json(b, c),
    ensures
        same_json(a, c),
    decreases a,
{
    broadcast use vstd::std_specs::vec::group_vec_axioms;

    match a {
        JsonValue::Array(x) => match b {
            JsonValue::Array(y) => match c {
                JsonValue::Array(z) => {
                    assert forall|i: int| 0 <= i < x@.len() implies same_json(#[trigger] x[i], z[i]) by {
                        assert(decreases_to!(x => x[i]));
                        assert(same_json(y[i], z[i]));
                        lemma_same_json_trans(x[i], y[i], z[i]);
                    }
                },
                _ => {},
            },
            _ => {},
        },
        JsonValue::Object(x) => match b {
            JsonValue::Object(y) => match c {
                JsonValue::Object(z) => {
                    assert forall|i: int| 0 <= i < x@.len() implies (#[trigger] x[i]).0@ == z[i].0@ && same_json(
                        x[i].1,
                        z[i].1,
                    ) by {
                        assert(decreases_to!(x => x[i]));
                        assert(decreases_to!(x[i] => x[i].1));
                        assert(y[i].0@ == z[i].0@ && same_json(y[i].1, z[i].1));
                        lemma_same_json_trans(x[i].1, y[i].1, z[i].1);
                    }
                },
                _ => {},
            },
            _ => {},
        },
        _ => {},
    }
}

/// Documents that are the same have the same children, up to `same_json`.
proof fn lemma_child_same(a: JsonValue, b: JsonValue, token: Seq<char>)
    requires
        same_json(a, b),
    ensures
        child_of(a, token) is Some <==> child_of(b, token) is Some,
        child_of(a, token) is Some ==> same_json(child_of(a, token)->Some_0, child_of(b, token)->Some_0),
{
    match a {
        JsonValue::Object(x) => match b {
            JsonValue::Object(y) => {
                assert forall|k: int| 0 <= k < x@.len() implies (#[trigger] x@[k]).0@ == y@[k].0@ by {
                    assert(x[k].0@ == y[k].0@);
                }
                lemma_key_index_same_keys(x@, y@, token);
                lemma_key_index_range(x@, token);
                let j = key_index(x@, token);
                if j >= 0 {
                    assert(same_json(x[j].1, y[j].1));
                }
            },
            _ => {},
        },
        JsonValue::Array(x) => match b {
            JsonValue::Array(y) => {
                match index_of_token(token) {
                    Some(i) => {
                        if i < x@.len() {
                            assert(same_json(x[i as int], y[i as int]));
                        }
                    },
                    None => {},
                }
            },
            _ => {},
        },
        _ => {},
    }
}

/// Documents that are the same lead through the same tokens to the same values.
proof fn lemma_lookup_same(a: JsonValue, b: JsonValue, tokens: Seq<Seq<char>>)
    requires
        same_json(a, b),
    ensures
        lookup(a, tokens) is Some <==> lookup(b, tokens) is Some,
        lookup(a, tokens) is Some ==> same_json(lookup(a, tokens)->Some_0, lookup(b, tokens)->Some_0),
    decreases tokens.len(),
{
    if tokens.len() > 0 {
        lemma_child_same(a, b, tokens[0]);
        if child_of(a, tokens[0]) is Some {
            lemma_lookup_same(child_of(a, tokens[0])->Some_0, child_of(b, tokens[0])->Some_0, tokens.drop_first());
        }
    }
}

/// Documents that are the same give the same value at every JSON Pointer, up to `same_json`.
pub proof fn lemma_pointer_same(a: JsonValue, b: JsonValue, p: Seq<char>)
    requires
        same_json(a, b),
    ensures
        pointer(a, p) is Some <==> pointer(b, p) is Some,
        pointer(a, p) is Some ==> same_json(pointer(a, p)->Some_0, pointer(b, p)->Some_0),
{
    if p.len() > 0 && p[0] == '/' {
        lemma_lookup_same(a, b, pointer_tokens(p));
    }
}

/// Writing the same value through the same tokens into documents that are the same gives
/// documents that are the same.
proof fn lemma_replaced_same(
    a: JsonValue,
    b: JsonValue,
    tokens: Seq<Seq<char>>,
    n: JsonValue,
    m: JsonValue,
    x: JsonValue,
    y: JsonValue,
)
    requires
        same_json(a, b),
        same_json(n, m),
        replaced(a, tokens, n, x),
        replaced(b, tokens, m, y),
    ensures
        same_json(x, y),
    decreases tokens.len(),
{
    if tokens.len() > 0 {
        match a {
            JsonValue::Object(es) => match b {
                JsonValue::Object(fs) => match x {
                    JsonValue::Object(rs) => match y {
                        JsonValue::Object(ys) => {
                            assert forall|k: int| 0 <= k < es@.len() implies (#[trigger] es@[k]).0@ == fs@[k].0@ by {
                                assert(es[k].0@ == fs[k].0@);
                            }
                            lemma_key_index_same_keys(es@, fs@, tokens[0]);
                            let j = key_index(es@, tokens[0]);
                            assert(same_json(es[j].1, fs[j].1));
                            lemma_replaced_same(es@[j].1, fs@[j].1, tokens.drop_first(), n, m, rs@[j].1, ys@[j].1);
                            assert forall|k: int| 0 <= k < rs@.len() implies (#[trigger] rs[k]).0@ == ys[k].0@
                                && same_json(rs[k].1, ys[k].1) by {
                                if k != j {
                                    assert(rs@[k] == es@[k]);
                                    assert(ys@[k] == fs@[k]);
                                    assert(es[k].0@ == fs[k].0@ && same_json(es[k].1, fs[k].1));
                                }
                            }
                        },
                        _ => {},
                    },
                    _ => {},
                },
                _ => {},
            },
            JsonValue::Array(list) => match b {
                JsonValue::Array(fl) => match x {
                    JsonValue::Array(rl) => match y {
                        JsonValue::Array(yl) => {
                            let j = index_of_token(tokens[0])->Some_0 as int;
                            assert(same_json(list[j], fl[j]));
                            lemma_replaced_same(list@[j], fl@[j], tokens.drop_first(), n, m, rl@[j], yl@[j]);
                            assert forall|k: int| 0 <= k < rl@.len() implies same_json(#[trigger] rl[k], yl[k]) by {
                                if k != j {
                                    assert(rl@[k] == list@[k]);
                                    assert(yl@[k] == fl@[k]);
                                    assert(same_json(list[k], fl[k]));
                                }
                            }
                        },
                        _ => {},
                    },
                    _ => {},
                },
                _ => {},
            },
            _ => {},
        }
    }
}

/// Writing the same value at the same JSON Pointer into documents that are the same gives
/// documents that are the same.
pub proof fn lemma_replaced_at_same(
    a: JsonValue,
    b: JsonValue,
    p: Seq<char>,
    n: JsonValue,
    m: JsonValue,
    x: JsonValue,
    y: JsonValue,
)
    requires
        same_json(a, b),
        same_json(n, m),
        replaced_at(a, p, n, x),
        replaced_at(b, p, m, y),
    ensures
        same_json(x, y),
{
    if p.len() > 0 {
        lemma_replaced_same(a, b, pointer_tokens(p), n, m, x, y);
    }
}

/// Writing at the end of a path the value that is already there is a replacement that
/// leaves the document as it is.
proof fn lemma_replaced_self(v: JsonValue, tokens: Seq<Seq<char>>)
    requires
        lookup(v, tokens) is Some,
    ensures
        replaced(v, tokens, lookup(v, tokens)->Some_0, v),
    decreases tokens.len(),
{
    if tokens.len() > 0 {
        let c = child_of(v, tokens[0])->Some_0;
        lemma_replaced_self(c, tokens.drop_first());
        match v {
            JsonValue::Object(es) => {
                lemma_key_index_range(es@, tokens[0]);
            },
            _ => {},
        }
    }
}

/// Writing at a JSON Pointer the value that is already there leaves the document as it is.
pub proof fn lemma_replaced_at_self(v: JsonValue, p: Seq<char>)
    requires
        pointer(v, p) is Some,
    ensures
        replaced_at(v, p, pointer(v, p)->Some_0, v),
{
    if p.len() > 0 {
        lemma_replaced_self(v, pointer_tokens(p));
    }
}

// ---------------------------------------------------------------------------
// Writing at one path leaves the paths that go apart from it as they were
// ---------------------------------------------------------------------------

/// Ten to the power `n`.
pub open spec fn ten_pow(n: nat) -> nat
    decreases n,
{
    if n == 0 {
        1
    } else {
        10 * ten_pow((n - 1) as nat)
    }
}

proof fn lemma_ten_pow_grows(m: nat, n: nat)
    requires
        m <= n,
    ensures
        ten_pow(m) <= ten_pow(n),
    decreases n,
{
    if m < n {
        lemma_ten_pow_grows(m, (n - 1) as nat);
    }
}

proof fn lemma_digits_value_below(t: Seq<char>)
    requires
        all_digits(t),
    ensures
        digits_value(t) < ten_pow(t.len()),
    decreases t.len(),
{
    if t.len() > 0 {
        assert(all_digits(t.drop_last())) by {
            assert forall|i: int| 0 <= i < t.drop_last().len() implies is_digit(#[trigger] t.drop_last()[i]) by {
                assert(is_digit(t[i]));
            }
        }
        lemma_digits_value_below(t.drop_last());
        assert(is_digit(t[t.len() - 1]));
    }
}

proof fn lemma_digits_value_at_least(t: Seq<char>)
    requires
        all_digits(t),
        t.len() >= 1,
        t[0] != '0',
    ensures
        digits_value(t) >= ten_pow((t.len() - 1) as nat),
    decreases t.len(),
{
    assert(is_digit(t[0]));
    if t.len() > 1 {
        assert(all_digits(t.drop_last())) by {
            assert forall|i: int| 0 <= i < t.drop_last().len() implies is_digit(#[trigger] t.drop_last()[i]) by {
                assert(is_digit(t[i]));
            }
        }
        assert(t.drop_last()[0] == t[0]);
        lemma_digits_value_at_least(t.drop_last());
    }
}

proof fn lemma_digits_same_len(a: Seq<char>, b: Seq<char>)
    requires
        all_digits(a),
        all_digits(b),
        a.len() == b.len(),
        digits_value(a) == digits_value(b),
    ensures
        a == b,
    decreases a.len(),
{
    if a.len() > 0 {
        let n = a.len() - 1;
        assert(all_digits(a.drop_last())) by {
            assert forall|i: int| 0 <= i < a.drop_last().len() implies is_digit(#[trigger] a.drop_last()[i]) by {
                assert(is_digit(a[i]));
            }
        }
        assert(all_digits(b.drop_last())) by {
            assert forall|i: int| 0 <= i < b.drop_last().len() implies is_digit(#[trigger] b.drop_last()[i]) by {
                assert(is_digit(b[i]));
            }
        }
        assert(is_digit(a[n]));
        assert(is_digit(b[n]));
        let x = digits_value(a.drop_last());
        let y = digits_value(b.drop_last());
        let da = (a.last() as u32 - '0' as u32) as nat;
        let db = (b.last() as u32 - '0' as u32) as nat;
        assert(x * 10 + da == y * 10 + db);
        assert(x == y && da == db);
        lemma_digits_same_len(a.drop_last(), b.drop_last());
        assert(a =~= a.drop_last().push(a.last()));
        assert(b =~= b.drop_last().push(b.last()));
    }
}

/// Two different tokens never name the same element of an array.
proof fn lemma_index_of_token_distinct(t1: Seq<char>, t2: Seq<char>)
    requires
        t1 != t2,
        index_of_token(t1) is Some,
        index_of_token(t2) is Some,
    ensures
        index_of_token(t1) != index_of_token(t2),
{
    if digits_value(t1) == digits_value(t2) {
        if t1.len() < t2.len() {
            lemma_digits_value_below(t1);
            lemma_digits_value_at_least(t2);
            lemma_ten_pow_grows(t1.len(), (t2.len() - 1) as nat);
        } else if t2.len() < t1.len() {
            lemma_digits_value_below(t2);
            lemma_digits_value_at_least(t1);
            lemma_ten_pow_grows(t2.len(), (t1.len() - 1) as nat);
        } else {
            lemma_digits_same_len(t1, t2);
        }
    }
}

/// Two paths of tokens go apart: at some position both have a token and these differ, the
/// tokens before it being the same.
pub open spec fn tokens_apart(p: Seq<Seq<char>>, q: Seq<Seq<char>>) -> bool
    decreases p.len(),
{
    &&& p.len() > 0
    &&& q.len() > 0
    &&& (p[0] != q[0] || tokens_apart(p.drop_first(), q.drop_first()))
}

/// Two JSON Pointers lead to places apart from each other: neither place is inside the
/// other, or one of them is no pointer at all (it does not start with `/`).
pub open spec fn pointers_apart(p: Seq<char>, q: Seq<char>) -> bool {
    ||| (p.len() > 0 && p[0] != '/')
    ||| (q.len() > 0 && q[0] != '/')
    ||| (p.len() > 0 && q.len() > 0 && tokens_apart(pointer_tokens(p), pointer_tokens(q)))
}

proof fn lemma_replaced_keeps_apart(a: JsonValue, p: Seq<Seq<char>>, n: JsonValue, r: JsonValue, q: Seq<Seq<char>>)
    requires
        replaced(a, p, n, r),
        tokens_apart(p, q),
    ensures
        lookup(r, q) == lookup(a, q),
    decreases p.len(),
{
    match a {
        JsonValue::Object(es) => match r {
            JsonValue::Object(rs) => {
                assert forall|k: int| 0 <= k < es@.len() implies (#[trigger] es@[k]).0@ == rs@[k].0@ by {
                    if k != key_index(es@, p[0]) {
                        assert(rs@[k] == es@[k]);
                    }
                }
                lemma_key_index_same_keys(es@, rs@, q[0]);
                lemma_key_index_range(es@, p[0]);
                lemma_key_index_range(es@, q[0]);
                let j = key_index(es@, p[0]);
                let j2 = key_index(es@, q[0]);
                if p[0] != q[0] {
                    if j2 >= 0 {
                        assert(j2 != j);
                        assert(rs@[j2] == es@[j2]);
                    }
                } else {
                    lemma_replaced_keeps_apart(es@[j].1, p.drop_first(), n, rs@[j].1, q.drop_first());
                }
            },
            _ => {},
        },
        JsonValue::Array(list) => match r {
            JsonValue::Array(rl) => {
                let j = index_of_token(p[0])->Some_0 as int;
                if p[0] != q[0] {
                    if index_of_token(q[0]) is Some {
                        lemma_index_of_token_distinct(p[0], q[0]);
                        let j2 = index_of_token(q[0])->Some_0 as int;
                        if j2 < list@.len() {
                            assert(rl@[j2] == list@[j2]);
                        }
                    }
                } else {
                    lemma_replaced_keeps_apart(list@[j], p.drop_first(), n, rl@[j], q.drop_first());
                }
            },
            _ => {},
        },
        _ => {},
    }
}

/// Writing at a JSON Pointer leaves what every pointer apart from it reads as it was.
pub proof fn lemma_replaced_at_keeps_apart(a: JsonValue, p: Seq<char>, n: JsonValue, r: JsonValue, q: Seq<char>)
    requires
        pointer(a, p) is Some,
        replaced_at(a, p, n, r),
        pointers_apart(p, q),
    ensures
        pointer(r, q) == pointer(a, q),
{
    if !(q.len() > 0 && q[0] != '/') {
        lemma_replaced_keeps_apart(a, pointer_tokens(p), n, r, pointer_tokens(q));
    }
}

} // verus!
