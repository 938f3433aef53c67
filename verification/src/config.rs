use std::marker::PhantomData;

use vstd::prelude::*;

use crate::json::{
    all_digits, bool_of, digits_value, lemma_pointer_reads_back_write, lemma_pointer_same, lemma_replaced_at_keeps_apart,
    lemma_replaced_at_same, pointers_apart,
    lemma_replaced_at_self, lemma_same_json_refl, lemma_same_json_symm, lemma_same_json_trans, pointer, replaced_at,
    same_json, str_of, u64_of, JsonNumber, JsonValue, NumberModel,
};
use crate::prelude::consts::JSON_ENV_OVERRIDES_PATH;
use crate::text::{chars_equal, chars_of, concat2, owned};
use serde_json::Value as SerdeValue;

verus! {

/// The states a configuration goes through: created, then loaded.
pub trait ConfigStates {}

/// A configuration that knows its environment and nothing more.
#[derive(Debug, Clone)]
pub struct ConfigNew;

/// A configuration that holds its document.
#[derive(Debug, Clone)]
pub struct ConfigReady;

impl ConfigStates for ConfigNew {}

impl ConfigStates for ConfigReady {}

/// The service's configuration: the JSON document of one environment, and the directory
/// it was read from.
#[derive(Debug)]
pub struct Config<S: ConfigStates> {
    pub config: Option<JsonValue>,
    env: String,
    pub real_path: Option<String>,
    _state: PhantomData<S>,
}

/// Why an environment variable could not stand in for a configuration value.
#[derive(Debug, Clone, Copy, PartialEq, Eq)]
pub enum EnvOverrideError {
    /// The configuration value is a number and the variable holds no JSON number.
    InvalidNumber,
    /// The configuration value is a boolean and the variable is neither `true` nor `false`.
    InvalidBoolean,
    /// The configuration value is an array and the variable holds no JSON array.
    InvalidArray,
    /// The configuration value is null or an object.
    UnsupportedType,
}

/// What looking up an environment variable gave.
#[derive(Debug, Clone, PartialEq, Eq)]
pub enum EnvLookup {
    /// The variable is set, to this text.
    Present(String),
    /// The variable is not set.
    NotPresent,
    /// The variable is set, but not to valid Unicode.
    NotUnicode,
}

/// One override to apply: the JSON Pointer of the value, the name of the environment
/// variable to take it from (`None` where the overrides object names it with something
/// other than a string), and what looking that variable up gave.
pub type OverrideEntry = (String, Option<String>, EnvLookup);

/// What one override did.
#[derive(Debug, Clone, Copy, PartialEq, Eq)]
pub enum OverrideOutcome {
    /// The value was replaced by the variable's.
    Replaced,
    /// The variable is not set; the value stays.
    VariableNotFound,
    /// The pointer leads nowhere; nothing changes.
    PathMissing,
}

/// Why the overrides could not be applied.
#[derive(Debug, Clone, PartialEq, Eq)]
pub enum OverrideError {
    /// The override of the value at this pointer names its variable with something other
    /// than a string.
    NameNotString(String),
    /// The variable (second) for the value at this pointer (first) is not valid Unicode.
    NotUnicode(String, String),
    /// The variable's text cannot stand in for the value at this pointer.
    Conversion(String, EnvOverrideError),
}

impl<S: ConfigStates> Config<S> {
    /// The name of the environment.
    pub closed spec fn env_name(&self) -> Seq<char> {
        self.env@
    }

    /// The document, once loaded.
    pub closed spec fn document(&self) -> Option<JsonValue> {
        self.config
    }

    /// The directory the document was read from.
    pub closed spec fn directory(&self) -> Option<String> {
        self.real_path
    }

    /// The value that the JSON Pointer `path` designates in the document.
    pub open spec fn value_at(&self, path: Seq<char>) -> Option<JsonValue> {
        match self.document() {
            Some(c) => pointer(c, path),
            None => None,
        }
    }

    pub open spec fn str_at(&self, path: Seq<char>) -> Option<Seq<char>> {
        match self.value_at(path) {
            Some(v) => str_of(v),
            None => None,
        }
    }

    pub open spec fn bool_at(&self, path: Seq<char>) -> Option<bool> {
        match self.value_at(path) {
            Some(v) => bool_of(v),
            None => None,
        }
    }

    pub open spec fn u64_at(&self, path: Seq<char>) -> Option<u64> {
        match self.value_at(path) {
            Some(v) => u64_of(v),
            None => None,
        }
    }

    /// The name of the environment.
    pub fn env(&self) -> (r: &str)
        ensures
            r@ == self.env_name(),
    {
        self.env.as_str()
    }
}

/// The file that holds the configuration of `env` in the directory `dir`.
pub open spec fn config_file_path_spec(dir: Seq<char>, env: Seq<char>) -> Seq<char> {
    dir + seq!['/'] + env + seq!['.', 'j', 's', 'o', 'n']
}

impl Config<ConfigNew> {
    /// A configuration for the environment `env`, not loaded yet.
    pub fn new(env: &str) -> (r: Config<ConfigNew>)
        ensures
            r.env_name() == env@,
            r.document() is None,
            r.directory() is None,
    {
        Config { real_path: None, env: owned(env), config: None, _state: PhantomData }
    }

    /// The file to read the configuration from, given the (canonical) working directory.
    pub fn config_file_path(&self, dir: &str) -> (r: String)
        ensures
            r@ == config_file_path_spec(dir@, self.env_name()),
    {
        let with_slash = concat2(dir, "/");
        proof {
            reveal_strlit("/");
            reveal_strlit(".json");
        }
        let with_env = concat2(with_slash.as_str(), self.env.as_str());
        let r = concat2(with_env.as_str(), ".json");
        assert(r@ =~= config_file_path_spec(dir@, self.env_name()));
        r
    }

    /// The loaded configuration: the given document, and the directory it was read from.
    pub fn load_document(self, document: JsonValue, dir: String) -> (r: Config<ConfigReady>)
        ensures
            r.document() == Some(document),
            r.env_name() == self.env_name(),
            r.directory() == Some(dir),
    {
        Config { config: Some(document), env: self.env, real_path: Some(dir), _state: PhantomData }
    }

    /// The loaded configuration: the text of the configuration file read as a JSON
    /// document, and the directory it was read from. The text must be JSON (see
    /// `load_text`).
    pub fn load(self, text: &str, dir: String) -> (r: Config<ConfigReady>)
        requires
            serde_json_value_from_str(text@) is Some,
        ensures
            r.document() matches Some(x) && same_json(x, serde_json_value_from_str(text@)->Some_0),
            r.env_name() == self.env_name(),
            r.directory() == Some(dir),
    {
        match json_from_str(text) {
            Some(document) => self.load_document(document, dir),
            None => {
                assert(false);
                self.load_document(JsonValue::Null, dir)
            },
        }
    }

    /// The loaded configuration, as `load` makes it, where the text of the configuration
    /// file is JSON; `None` where it is not.
    pub fn load_text(self, text: &str, dir: String) -> (r: Option<Config<ConfigReady>>)
        ensures
            match r {
                Some(c) => serde_json_value_from_str(text@) matches Some(d) && c.document() matches Some(x)
                    && same_json(x, d) && c.env_name() == self.env_name() && c.directory() == Some(dir),
                None => serde_json_value_from_str(text@) is None,
            },
    {
        if json_from_str(text).is_some() {
            Some(self.load(text, dir))
        } else {
            None
        }
    }
}

impl Config<ConfigReady> {
    /// The value at the JSON Pointer `path`.
    pub fn get(&self, path: &str) -> (r: Option<&JsonValue>)
        ensures
            match r {
                Some(v) => self.value_at(path@) == Some(*v),
                None => self.value_at(path@) is None,
            },
    {
        match &self.config {
            Some(cfg) => cfg.pointer(path),
            None => None,
        }
    }

    /// The string at `path`; the path must hold a string.
    pub fn expect_str(&self, path: &str) -> (r: &str)
        requires
            self.str_at(path@) is Some,
        ensures
            self.str_at(path@) == Some(r@),
    {
        let v = self.get(path).unwrap();
        v.as_str().unwrap()
    }

    /// A copy of the string at `path`; the path must hold a string.
    pub fn expect_string(&self, path: &str) -> (r: String)
        requires
            self.str_at(path@) is Some,
        ensures
            self.str_at(path@) == Some(r@),
    {
        owned(self.expect_str(path))
    }

    /// The boolean at `path`; the path must hold a boolean.
    pub fn expect_bool(&self, path: &str) -> (r: bool)
        requires
            self.bool_at(path@) is Some,
        ensures
            self.bool_at(path@) == Some(r),
    {
        let v = self.get(path).unwrap();
        v.as_bool().unwrap()
    }

    /// A copy of the value at `path`; the path must resolve.
    pub fn expect_value_cloned(&self, path: &str) -> (r: JsonValue)
        requires
            self.value_at(path@) is Some,
        ensures
            same_json(r, self.value_at(path@)->Some_0),
    {
        let v = self.get(path).unwrap();
        v.deep_clone()
    }

    /// The non-negative integer at `path`; the path must hold one.
    pub fn expect_u64(&self, path: &str) -> (r: u64)
        requires
            self.u64_at(path@) is Some,
        ensures
            self.u64_at(path@) == Some(r),
    {
        let v = self.get(path).unwrap();
        v.as_u64().unwrap()
    }

    /// The non-negative integer at `path`, cut to its low 32 bits; the path must hold one.
    pub fn expect_u32(&self, path: &str) -> (r: u32)
        requires
            self.u64_at(path@) is Some,
        ensures
            r as int == self.u64_at(path@)->Some_0 % 0x1_0000_0000,
    {
        let n = self.expect_u64(path);
        let r = (n % 0x1_0000_0000) as u32;
        r
    }

    /// Writes `value` at the JSON Pointer `path`, where it resolves; tells whether it did.
    pub fn replace_at(&mut self, path: &str, value: JsonValue) -> (r: bool)
        ensures
            r == (old(self).value_at(path@) is Some),
            r ==> final(self).document() is Some && replaced_at(
                old(self).document()->Some_0,
                path@,
                value,
                final(self).document()->Some_0,
            ),
            !r ==> final(self).document() == old(self).document(),
            final(self).env_name() == old(self).env_name(),
            final(self).directory() == old(self).directory(),
    {
        match &mut self.config {
            Some(cfg) => cfg.replace_at(path, value),
            None => false,
        }
    }
}

// ---------------------------------------------------------------------------
// Overriding configuration values from environment variables
// ---------------------------------------------------------------------------

/// What `serde_json::Number::from_str` makes of a text, if it reads a number there.
pub uninterp spec fn serde_number_from_str(s: Seq<char>) -> Option<NumberModel>;

/// A run of decimal digits without a superfluous leading zero whose value fits in `u64`.
pub open spec fn plain_decimal(s: Seq<char>) -> bool {
    &&& s.len() > 0
    &&& all_digits(s)
    &&& (s.len() == 1 || s[0] != '0')
    &&& digits_value(s) <= u64::MAX
}

/// `serde_json::Number::from_str`. The contract claims that the result is the one that
/// function gives (named `serde_number_from_str`), kept as a non-negative integer, a
/// negative integer or the float's text, and, as the parser's source shows, that a plain
/// decimal that fits in `u64` reads as that integer.
#[verifier::external_body]
fn number_from_str(s: &str) -> (r: Option<JsonNumber>)
    ensures
        match r {
            Some(n) => serde_number_from_str(s@) == Some(n.model()),
            None => serde_number_from_str(s@) is None,
        },
        plain_decimal(s@) ==> r == Some(JsonNumber::PosInt(digits_value(s@) as u64)),
{
    match s.parse::<serde_json::Number>() {
        Ok(n) => match (n.as_u64(), n.as_i64()) {
            (Some(u), _) => Some(JsonNumber::PosInt(u)),
            (None, Some(i)) => Some(JsonNumber::NegInt(i)),
            (None, None) => Some(JsonNumber::Float(n.to_string())),
        },
        Err(_) => None,
    }
}

/// What `str::parse::<bool>` reads: exactly `true` or `false`.
pub open spec fn bool_text(s: Seq<char>) -> Option<bool> {
    if s == seq!['t', 'r', 'u', 'e'] {
        Some(true)
    } else if s == seq!['f', 'a', 'l', 's', 'e'] {
        Some(false)
    } else {
        None
    }
}

fn parse_bool(s: &str) -> (r: Option<bool>)
    ensures
        r == bool_text(s@),
{
    let cs = chars_of(s);
    let t = vec!['t', 'r', 'u', 'e'];
    let f = vec!['f', 'a', 'l', 's', 'e'];
    assert(t@ =~= seq!['t', 'r', 'u', 'e']);
    assert(f@ =~= seq!['f', 'a', 'l', 's', 'e']);
    if chars_equal(&cs, &t) {
        Some(true)
    } else if chars_equal(&cs, &f) {
        Some(false)
    } else {
        None
    }
}

/// What `serde_json::from_str::<Vec<serde_json::Value>>` makes of a text, if it reads a
/// JSON array there: its items.
pub uninterp spec fn serde_json_array_from_str(s: Seq<char>) -> Option<Seq<JsonValue>>;

/// Two lists of documents, item by item the same (see `same_json`).
pub open spec fn same_json_list(a: Seq<JsonValue>, b: Seq<JsonValue>) -> bool {
    &&& a.len() == b.len()
    &&& forall|i: int| 0 <= i < a.len() ==> same_json(#[trigger] a[i], b[i])
}

/// A `serde_json::Value` as the library's document, variant for variant.
#[verifier::external_body]
fn json_from_serde(v: &SerdeValue) -> JsonValue {
    match v {
        SerdeValue::Null => JsonValue::Null,
        SerdeValue::Bool(b) => JsonValue::Bool(*b),
        SerdeValue::Number(n) => JsonValue::Number(match (n.as_u64(), n.as_i64()) {
            (Some(u), _) => JsonNumber::PosInt(u),
            (None, Some(i)) => JsonNumber::NegInt(i),
            (None, None) => JsonNumber::Float(n.to_string()),
        }),
        SerdeValue::String(t) => JsonValue::String(t.clone()),
        SerdeValue::Array(a) => JsonValue::Array(a.iter().map(json_from_serde).collect()),
        SerdeValue::Object(m) => JsonValue::Object(m.iter().map(|(k, x)| (k.clone(), json_from_serde(x))).collect()),
    }
}

/// `serde_json::from_str::<Vec<serde_json::Value>>`, its items taken over variant for
/// variant by `json_from_serde`, which is apart only because it recurses (numbers as
/// `number_from_str` keeps them, object entries in the order of serde_json's map, sorted
/// by key). The contract claims that the result is, item by item, the one that function
/// gives (named `serde_json_array_from_str`), and that there is one exactly where the text
/// reads as a JSON array.
#[verifier::external_body]
fn json_array_from_str(s: &str) -> (r: Option<Vec<JsonValue>>)
    ensures
        match r {
            Some(v) => serde_json_array_from_str(s@) matches Some(xs) && same_json_list(v@, xs),
            None => serde_json_array_from_str(s@) is None,
        },
{
    match serde_json::from_str::<Vec<SerdeValue>>(s) {
        Ok(v) => Some(v.iter().map(json_from_serde).collect()),
        Err(_) => None,
    }
}

/// What `serde_json::from_str::<serde_json::Value>` makes of a text, if it reads a JSON
/// document there.
pub uninterp spec fn serde_json_value_from_str(s: Seq<char>) -> Option<JsonValue>;

/// `serde_json::from_str::<serde_json::Value>`, the document taken over variant for variant
/// by `json_from_serde`. The contract claims that the result is, up to `same_json`, the one
/// that function gives (named `serde_json_value_from_str`), and that there is one exactly
/// where the text reads as JSON.
#[verifier::external_body]
fn json_from_str(s: &str) -> (r: Option<JsonValue>)
    ensures
        match r {
            Some(v) => serde_json_value_from_str(s@) matches Some(x) && same_json(v, x),
            None => serde_json_value_from_str(s@) is None,
        },
{
    match serde_json::from_str::<SerdeValue>(s) {
        Ok(v) => Some(json_from_serde(&v)),
        Err(_) => None,
    }
}

/// Why the text of a variable cannot stand in for `orig`, if it cannot: it must read as a
/// number for a number, as `true` or `false` for a boolean, as a JSON array for an array;
/// any text stands in for a string; nothing stands in for a null or an object.
pub open spec fn env_override_error(orig: JsonValue, text: Seq<char>) -> Option<EnvOverrideError> {
    match orig {
        JsonValue::String(_) => None,
        JsonValue::Number(_) => if serde_number_from_str(text) is Some {
            None
        } else {
            Some(EnvOverrideError::InvalidNumber)
        },
        JsonValue::Bool(_) => if bool_text(text) is Some {
            None
        } else {
            Some(EnvOverrideError::InvalidBoolean)
        },
        JsonValue::Array(_) => if serde_json_array_from_str(text) is Some {
            None
        } else {
            Some(EnvOverrideError::InvalidArray)
        },
        _ => Some(EnvOverrideError::UnsupportedType),
    }
}

/// `v` is the text of a variable read as a value of the same kind as `orig`: a string as
/// it is, a number, a boolean or an array parsed (a plain decimal that fits in `u64` as
/// that integer).
pub open spec fn env_value_converted(orig: JsonValue, text: Seq<char>, v: JsonValue) -> bool {
    match orig {
        JsonValue::String(_) => v matches JsonValue::String(t) && t@ == text,
        JsonValue::Number(_) => v matches JsonValue::Number(n) && serde_number_from_str(text) == Some(
            n.model(),
        ) && (plain_decimal(text) ==> n == JsonNumber::PosInt(digits_value(text) as u64)),
        JsonValue::Bool(_) => v matches JsonValue::Bool(b) && bool_text(text) == Some(b),
        JsonValue::Array(_) => v matches JsonValue::Array(items) && serde_json_array_from_str(text)
            matches Some(xs) && same_json_list(items@, xs),
        _ => false,
    }
}

/// Whether the text of a variable can stand in for `orig`, and if not, why.
pub fn env_value_error(orig: &JsonValue, text: &str) -> (r: Option<EnvOverrideError>)
    ensures
        r == env_override_error(*orig, text@),
        *orig is Number && plain_decimal(text@) ==> r is None,
{
    match orig {
        JsonValue::String(_) => None,
        JsonValue::Number(_) => match number_from_str(text) {
            Some(_) => None,
            None => Some(EnvOverrideError::InvalidNumber),
        },
        JsonValue::Bool(_) => match parse_bool(text) {
            Some(_) => None,
            None => Some(EnvOverrideError::InvalidBoolean),
        },
        JsonValue::Array(_) => match json_array_from_str(text) {
            Some(_) => None,
            None => Some(EnvOverrideError::InvalidArray),
        },
        _ => Some(EnvOverrideError::UnsupportedType),
    }
}

/// The text of an environment variable read as a value of the same kind as `orig`, the
/// configuration value it stands in for. The text must be able to stand in for it (see
/// `env_value_error`).
pub fn convert_env_to_value(orig: &JsonValue, new_value: String) -> (r: JsonValue)
    requires
        env_override_error(*orig, new_value@) is None,
    ensures
        env_value_converted(*orig, new_value@, r),
{
    match orig {
        JsonValue::String(_) => JsonValue::String(new_value),
        JsonValue::Number(_) => match number_from_str(new_value.as_str()) {
            Some(n) => JsonValue::Number(n),
            None => {
                assert(false);
                JsonValue::Null
            },
        },
        JsonValue::Bool(_) => match parse_bool(new_value.as_str()) {
            Some(b) => JsonValue::Bool(b),
            None => {
                assert(false);
                JsonValue::Null
            },
        },
        JsonValue::Array(_) => match json_array_from_str(new_value.as_str()) {
            Some(items) => JsonValue::Array(items),
            None => {
                assert(false);
                JsonValue::Null
            },
        },
        _ => {
            assert(false);
            JsonValue::Null
        },
    }
}

/// The entries of the overrides object: for each, the JSON Pointer of the value to
/// override and, where it is a string, the name of the environment variable to take it from.
pub open spec fn override_entries_match(doc: Option<JsonValue>, r: Seq<(String, Option<String>)>) -> bool {
    match doc {
        Some(JsonValue::Object(es)) => {
            &&& r.len() == es@.len()
            &&& forall|i: int|
                0 <= i < r.len() ==> {
                    &&& (#[trigger] r[i]).0@ == es@[i].0@
                    &&& match r[i].1 {
                        Some(n) => str_of(es@[i].1) == Some(n@),
                        None => str_of(es@[i].1) is None,
                    }
                }
        },
        _ => r.len() == 0,
    }
}

impl Config<ConfigReady> {
    /// The overrides that the document asks for at `/envOverrides`, in order: the JSON
    /// Pointer of each value and the environment variable named for it (`None` where the
    /// name is not a string). No overrides where that path holds no object.
    pub fn override_entries(&self) -> (r: Vec<(String, Option<String>)>)
        requires
            self.document() is Some,
        ensures
            override_entries_match(self.value_at(JSON_ENV_OVERRIDES_PATH@), r@),
    {
        let mut r: Vec<(String, Option<String>)> = Vec::new();
        match self.get(JSON_ENV_OVERRIDES_PATH) {
            Some(JsonValue::Object(es)) => {
                let mut i: usize = 0;
                while i < es.len()
                    invariant
                        i <= es@.len(),
                        r@.len() == i,
                        forall|k: int|
                            0 <= k < i ==> {
                                &&& (#[trigger] r@[k]).0@ == es@[k].0@
                                &&& match r@[k].1 {
                                    Some(n) => str_of(es@[k].1) == Some(n@),
                                    None => str_of(es@[k].1) is None,
                                }
                            },
                    decreases es@.len() - i,
                {
                    let key = es[i].0.clone();
                    let name = match es[i].1.as_str() {
                        Some(n) => Some(owned(n)),
                        None => None,
                    };
                    r.push((key, name));
                    i = i + 1;
                }
            },
            _ => {},
        }
        r
    }
}

/// What one override does to the document `d`, where it goes through: `d2` is the document
/// after it, `out` what it did. A pointer that leads nowhere, or a variable that is not set,
/// leaves the document as it is; a set variable replaces the value with its text read as a
/// value of the same kind.
pub open spec fn override_step(d: JsonValue, e: OverrideEntry, out: OverrideOutcome, d2: JsonValue) -> bool {
    match pointer(d, e.0@) {
        None => out == OverrideOutcome::PathMissing && d2 == d,
        Some(orig) => match e.1 {
            None => false,
            Some(_) => match e.2 {
                EnvLookup::NotPresent => out == OverrideOutcome::VariableNotFound && d2 == d,
                EnvLookup::Present(t) => out == OverrideOutcome::Replaced && exists|v: JsonValue|
                    #[trigger] env_value_converted(orig, t@, v) && replaced_at(d, e.0@, v, d2),
                EnvLookup::NotUnicode => false,
            },
        },
    }
}

/// Why one override cannot be applied to the document `d`, if it cannot.
pub open spec fn override_step_fails(d: JsonValue, e: OverrideEntry, err: OverrideError) -> bool {
    match pointer(d, e.0@) {
        None => false,
        Some(orig) => match e.1 {
            None => err matches OverrideError::NameNotString(k) && k@ == e.0@,
            Some(n) => match e.2 {
                EnvLookup::NotPresent => false,
                EnvLookup::NotUnicode => err matches OverrideError::NotUnicode(k, m) && k@ == e.0@ && m@
                    == n@,
                EnvLookup::Present(t) => match env_override_error(orig, t@) {
                    Some(x) => err matches OverrideError::Conversion(k, y) && k@ == e.0@ && y == x,
                    None => false,
                },
            },
        },
    }
}

/// `docs` are the documents that the overrides `es`, applied one after the other, go
/// through: `before` first, then the one each override leaves; `outs` tells what each did.
pub open spec fn override_trace(
    before: JsonValue,
    es: Seq<OverrideEntry>,
    outs: Seq<OverrideOutcome>,
    docs: Seq<JsonValue>,
) -> bool {
    &&& outs.len() == es.len()
    &&& docs.len() == es.len() + 1
    &&& docs[0] == before
    &&& forall|i: int| 0 <= i < es.len() ==> override_step(docs[i], #[trigger] es[i], outs[i], docs[i + 1])
}

/// The overrides `es`, applied one after the other to `before`, each to the document the
/// ones before it left, give `after`; `outs` tells what each did.
pub open spec fn overrides_applied(
    before: JsonValue,
    es: Seq<OverrideEntry>,
    outs: Seq<OverrideOutcome>,
    after: JsonValue,
) -> bool {
    exists|docs: Seq<JsonValue>| #[trigger] override_trace(before, es, outs, docs) && docs.last() == after
}

/// The overrides `es`, applied one after the other to `before`, go through up to one that
/// cannot be applied, which fails with `err`; `after` is the document the ones before it left.
pub open spec fn overrides_fail(before: JsonValue, es: Seq<OverrideEntry>, err: OverrideError, after: JsonValue) -> bool {
    exists|k: int, outs: Seq<OverrideOutcome>, docs: Seq<JsonValue>|
        0 <= k < es.len() && #[trigger] override_trace(before, es.take(k), outs, docs) && docs.last() == after
            && override_step_fails(after, es[k], err)
}

/// The overrides `es` go through on `before`: none of them fails.
pub open spec fn overrides_go_through(before: JsonValue, es: Seq<OverrideEntry>) -> bool {
    forall|err: OverrideError, after: JsonValue| !#[trigger] overrides_fail(before, es, err, after)
}

/// Two documents of the same kind: both strings, numbers, booleans, arrays, objects or null.
pub open spec fn same_kind(a: JsonValue, b: JsonValue) -> bool {
    ||| a is Null && b is Null
    ||| a is Bool && b is Bool
    ||| a is Number && b is Number
    ||| a is String && b is String
    ||| a is Array && b is Array
    ||| a is Object && b is Object
}

/// A value read from a text has the kind of the value it stands in for, and a text that
/// can be read that way is one that can stand in for it.
proof fn lemma_converted_kind(orig: JsonValue, text: Seq<char>, v: JsonValue)
    requires
        env_value_converted(orig, text, v),
    ensures
        same_kind(orig, v),
        env_override_error(orig, text) is None,
{
}

/// One text, read for two values of the same kind, gives the same value.
proof fn lemma_converted_same(o1: JsonValue, o2: JsonValue, text: Seq<char>, v: JsonValue, w: JsonValue)
    requires
        same_kind(o1, o2),
        env_value_converted(o1, text, v),
        env_value_converted(o2, text, w),
    ensures
        same_json(v, w),
{
    match v {
        JsonValue::Array(items) => match w {
            JsonValue::Array(jtems) => {
                let xs = serde_json_array_from_str(text)->Some_0;
                assert forall|i: int| 0 <= i < items@.len() implies same_json(#[trigger] items[i], jtems[i]) by {
                    assert(same_json(items@[i], xs[i]));
                    assert(same_json(jtems@[i], xs[i]));
                    lemma_same_json_symm(jtems@[i], xs[i]);
                    lemma_same_json_trans(items@[i], xs[i], jtems@[i]);
                }
            },
            _ => {},
        },
        JsonValue::Number(n) => match w {
            JsonValue::Number(m) => {
                assert(n.model() == m.model());
            },
            _ => {},
        },
        _ => {},
    }
}

/// Same documents, one override: where it goes through on one, it goes through on the
/// other the same way, and the documents after it are the same.
proof fn lemma_step_same(
    d: JsonValue,
    c: JsonValue,
    e: OverrideEntry,
    o: OverrideOutcome,
    d2: JsonValue,
    o2: OverrideOutcome,
    c2: JsonValue,
)
    requires
        same_json(d, c),
        override_step(d, e, o, d2),
        override_step(c, e, o2, c2),
    ensures
        o == o2,
        same_json(d2, c2),
{
    lemma_pointer_same(d, c, e.0@);
    if pointer(d, e.0@) is Some {
        let od = pointer(d, e.0@)->Some_0;
        let oc = pointer(c, e.0@)->Some_0;
        match e.2 {
            EnvLookup::Present(t) => {
                let v = choose|v: JsonValue| #[trigger] env_value_converted(od, t@, v) && replaced_at(d, e.0@, v, d2);
                let w = choose|w: JsonValue| #[trigger] env_value_converted(oc, t@, w) && replaced_at(c, e.0@, w, c2);
                lemma_converted_kind(od, t@, v);
                lemma_converted_kind(oc, t@, w);
                assert(same_kind(od, oc));
                lemma_converted_same(od, oc, t@, v, w);
                lemma_replaced_at_same(d, c, e.0@, v, w, d2, c2);
            },
            _ => {},
        }
    }
}

/// Same documents, one override: where it goes through on one, it does not fail on the other.
proof fn lemma_step_excludes_failure(d: JsonValue, c: JsonValue, e: OverrideEntry, o: OverrideOutcome, d2: JsonValue, err: OverrideError)
    requires
        same_json(d, c),
        override_step(d, e, o, d2),
    ensures
        !override_step_fails(c, e, err),
{
    lemma_pointer_same(d, c, e.0@);
    if pointer(d, e.0@) is Some {
        let od = pointer(d, e.0@)->Some_0;
        let oc = pointer(c, e.0@)->Some_0;
        match e.2 {
            EnvLookup::Present(t) => {
                let v = choose|v: JsonValue| #[trigger] env_value_converted(od, t@, v) && replaced_at(d, e.0@, v, d2);
                lemma_converted_kind(od, t@, v);
                assert(same_kind(od, oc));
            },
            _ => {},
        }
    }
}

/// Two runs of the same overrides from the same documents go through the same documents.
proof fn lemma_traces_same(
    b1: JsonValue,
    b2: JsonValue,
    es1: Seq<OverrideEntry>,
    es2: Seq<OverrideEntry>,
    outs1: Seq<OverrideOutcome>,
    outs2: Seq<OverrideOutcome>,
    docs1: Seq<JsonValue>,
    docs2: Seq<JsonValue>,
    n: int,
)
    requires
        same_json(b1, b2),
        override_trace(b1, es1, outs1, docs1),
        override_trace(b2, es2, outs2, docs2),
        0 <= n <= es1.len(),
        n <= es2.len(),
        forall|i: int| 0 <= i < n ==> es1[i] == es2[i],
    ensures
        same_json(docs1[n], docs2[n]),
        forall|i: int| 0 <= i < n ==> outs1[i] == outs2[i],
    decreases n,
{
    if n > 0 {
        lemma_traces_same(b1, b2, es1, es2, outs1, outs2, docs1, docs2, n - 1);
        assert(es1[n - 1] == es2[n - 1]);
        assert(override_step(docs1[n - 1], es1[n - 1], outs1[n - 1], docs1[n]));
        assert(override_step(docs2[n - 1], es2[n - 1], outs2[n - 1], docs2[n]));
        lemma_step_same(docs1[n - 1], docs2[n - 1], es1[n - 1], outs1[n - 1], docs1[n], outs2[n - 1], docs2[n]);
    }
}

/// Overrides that go through on one document go through on every document that is the same.
pub proof fn lemma_overrides_go_through_on_same(
    c: JsonValue,
    d: JsonValue,
    es: Seq<OverrideEntry>,
    outs: Seq<OverrideOutcome>,
    after: JsonValue,
)
    requires
        same_json(c, d),
        overrides_applied(c, es, outs, after),
    ensures
        overrides_go_through(d, es),
{
    let docs = choose|docs: Seq<JsonValue>| #[trigger] override_trace(c, es, outs, docs) && docs.last() == after;
    assert forall|err: OverrideError, fafter: JsonValue| !#[trigger] overrides_fail(d, es, err, fafter) by {
        if overrides_fail(d, es, err, fafter) {
            let (k, fouts, fdocs) = choose|k: int, fouts: Seq<OverrideOutcome>, fdocs: Seq<JsonValue>|
                0 <= k < es.len() && #[trigger] override_trace(d, es.take(k), fouts, fdocs) && fdocs.last() == fafter
                    && override_step_fails(fafter, es[k], err);
            lemma_traces_same(c, d, es, es.take(k), outs, fouts, docs, fdocs, k);
            assert(override_step(docs[k], es[k], outs[k], docs[k + 1]));
            lemma_step_excludes_failure(docs[k], fdocs[k], es[k], outs[k], docs[k + 1], err);
        }
    }
}

impl Config<ConfigReady> {
    /// Applies the overrides in order (see `override_values_from_env`); where one fails, says
    /// why and leaves the document as the overrides before it made it.
    fn apply_overrides(&mut self, lookups: &Vec<OverrideEntry>) -> (r: Result<Vec<OverrideOutcome>, OverrideError>)
        requires
            old(self).document() is Some,
        ensures
            final(self).document() is Some,
            final(self).env_name() == old(self).env_name(),
            final(self).directory() == old(self).directory(),
            match r {
                Ok(outs) => overrides_applied(
                    old(self).document()->Some_0,
                    lookups@,
                    outs@,
                    final(self).document()->Some_0,
                ),
                Err(err) => overrides_fail(
                    old(self).document()->Some_0,
                    lookups@,
                    err,
                    final(self).document()->Some_0,
                ),
            },
    {
        let ghost d0 = self.document()->Some_0;
        let ghost mut docs: Seq<JsonValue> = seq![d0];
        let mut outs: Vec<OverrideOutcome> = Vec::new();
        let mut i: usize = 0;
        assert(lookups@.take(0) =~= Seq::<OverrideEntry>::empty());
        while i < lookups.len()
            invariant
                i <= lookups@.len(),
                self.document() is Some,
                self.env_name() == old(self).env_name(),
                self.directory() == old(self).directory(),
                d0 == old(self).document()->Some_0,
                override_trace(d0, lookups@.take(i as int), outs@, docs),
                docs.last() == self.document()->Some_0,
            decreases lookups@.len() - i,
        {
            let ghost d = self.document()->Some_0;
            let ghost prev = outs@;
            let entry = &lookups[i];
            let step: Result<Option<JsonValue>, OverrideError> = match self.get(entry.0.as_str()) {
                None => Ok(None),
                Some(orig) => match &entry.1 {
                    None => Err(OverrideError::NameNotString(entry.0.clone())),
                    Some(n) => match &entry.2 {
                        EnvLookup::NotPresent => Ok(None),
                        EnvLookup::NotUnicode => Err(OverrideError::NotUnicode(entry.0.clone(), n.clone())),
                        EnvLookup::Present(t) => match env_value_error(orig, t.as_str()) {
                            Some(x) => Err(OverrideError::Conversion(entry.0.clone(), x)),
                            None => Ok(Some(convert_env_to_value(orig, t.clone()))),
                        },
                    },
                },
            };
            match step {
                Err(err) => {
                    proof {
                        assert(override_step_fails(d, lookups@[i as int], err));
                        assert(override_trace(d0, lookups@.take(i as int), prev, docs));
                    }
                    return Err(err);
                },
                Ok(None) => {
                    if self.get(entry.0.as_str()).is_none() {
                        outs.push(OverrideOutcome::PathMissing);
                    } else {
                        outs.push(OverrideOutcome::VariableNotFound);
                    }
                },
                Ok(Some(v)) => {
                    let ghost gv = v;
                    let ghost orig = pointer(d, lookups@[i as int].0@)->Some_0;
                    self.replace_at(entry.0.as_str(), v);
                    outs.push(OverrideOutcome::Replaced);
                    proof {
                        assert(env_value_converted(orig, lookups@[i as int].2->Present_0@, gv));
                    }
                },
            }
            proof {
                let es = lookups@.take(i + 1);
                docs = docs.push(self.document()->Some_0);
                assert(outs@.drop_last() =~= prev);
                assert forall|j: int| 0 <= j < es.len() implies override_step(
                    docs[j],
                    #[trigger] es[j],
                    outs@[j],
                    docs[j + 1],
                ) by {
                    if j < i {
                        assert(es[j] == lookups@.take(i as int)[j]);
                        assert(outs@[j] == prev[j]);
                    } else {
                        assert(es[j] == lookups@[i as int]);
                    }
                }
            }
            i = i + 1;
        }
        assert(lookups@.take(lookups@.len() as int) =~= lookups@);
        assert(override_trace(d0, lookups@, outs@, docs));
        Ok(outs)
    }

    /// Applies the overrides in order, each to the document the ones before it left: where
    /// the pointer leads nowhere or the variable is not set, nothing changes; otherwise the
    /// value is replaced by the variable's text read as a value of the same kind. Tells what
    /// each override did. None of them may fail: each override whose pointer leads somewhere
    /// names its variable with a string, and a variable that is set holds valid Unicode and
    /// text that can stand in for the value (see `try_override_values_from_env`).
    pub fn override_values_from_env(&mut self, lookups: Vec<OverrideEntry>) -> (r: Vec<OverrideOutcome>)
        requires
            old(self).document() is Some,
            overrides_go_through(old(self).document()->Some_0, lookups@),
        ensures
            final(self).document() is Some,
            final(self).env_name() == old(self).env_name(),
            final(self).directory() == old(self).directory(),
            overrides_applied(old(self).document()->Some_0, lookups@, r@, final(self).document()->Some_0),
    {
        let ghost d0 = self.document()->Some_0;
        match self.apply_overrides(&lookups) {
            Ok(outs) => outs,
            Err(err) => {
                assert(overrides_fail(d0, lookups@, err, self.document()->Some_0));
                assert(false);
                Vec::new()
            },
        }
    }

    /// The overrides as `override_values_from_env` applies them, where none of them fails;
    /// where one does, the error of the first that fails (its variable is named by no
    /// string, is not valid Unicode, or holds text that cannot stand in for the value), and
    /// the configuration is left as it was.
    pub fn try_override_values_from_env(&mut self, lookups: Vec<OverrideEntry>) -> (r: Result<Vec<OverrideOutcome>, OverrideError>)
        requires
            old(self).document() is Some,
        ensures
            final(self).document() is Some,
            final(self).env_name() == old(self).env_name(),
            final(self).directory() == old(self).directory(),
            match r {
                Ok(outs) => overrides_applied(
                    old(self).document()->Some_0,
                    lookups@,
                    outs@,
                    final(self).document()->Some_0,
                ),
                Err(err) => {
                    &&& final(self).document() == old(self).document()
                    &&& exists|c: JsonValue, after: JsonValue|
                        same_json(c, old(self).document()->Some_0) && #[trigger] overrides_fail(
                            c,
                            lookups@,
                            err,
                            after,
                        )
                },
            },
    {
        let mut copy = self.clone();
        let ghost c0 = copy.document()->Some_0;
        match copy.apply_overrides(&lookups) {
            Err(err) => {
                assert(overrides_fail(c0, lookups@, err, copy.document()->Some_0));
                Err(err)
            },
            Ok(outs) => {
                proof {
                    lemma_overrides_go_through_on_same(
                        c0,
                        self.document()->Some_0,
                        lookups@,
                        outs@,
                        copy.document()->Some_0,
                    );
                }
                Ok(self.override_values_from_env(lookups))
            },
        }
    }
}

proof fn lemma_trace_unchanged(
    before: JsonValue,
    es: Seq<OverrideEntry>,
    outs: Seq<OverrideOutcome>,
    docs: Seq<JsonValue>,
    n: int,
)
    requires
        override_trace(before, es, outs, docs),
        forall|i: int| 0 <= i < outs.len() ==> outs[i] != OverrideOutcome::Replaced,
        0 <= n <= es.len(),
    ensures
        docs[n] == before,
    decreases n,
{
    if n > 0 {
        lemma_trace_unchanged(before, es, outs, docs, n - 1);
        assert(override_step(docs[n - 1], es[n - 1], outs[n - 1], docs[n]));
    }
}

/// Overrides of which none replaced a value leave the document as it was: each pointed
/// nowhere or named a variable that is not set.
pub proof fn lemma_overrides_without_replacement_keep_document(
    before: JsonValue,
    es: Seq<OverrideEntry>,
    outs: Seq<OverrideOutcome>,
    after: JsonValue,
)
    requires
        overrides_applied(before, es, outs, after),
        forall|i: int| 0 <= i < outs.len() ==> outs[i] != OverrideOutcome::Replaced,
    ensures
        after == before,
{
    let docs = choose|docs: Seq<JsonValue>| #[trigger] override_trace(before, es, outs, docs) && docs.last() == after;
    lemma_trace_unchanged(before, es, outs, docs, es.len() as int);
}

/// Where the last of the overrides replaced its value, the document it leaves holds, at
/// that override's pointer, the variable's text read as a value of the kind that the
/// document the overrides before it left held there.
pub proof fn lemma_last_override_reads_back(
    before: JsonValue,
    es: Seq<OverrideEntry>,
    outs: Seq<OverrideOutcome>,
    after: JsonValue,
)
    requires
        overrides_applied(before, es, outs, after),
        es.len() > 0,
        outs.last() == OverrideOutcome::Replaced,
    ensures
        es.last().2 is Present,
        exists|mid: JsonValue, v: JsonValue|
            {
                &&& overrides_applied(before, es.drop_last(), outs.drop_last(), mid)
                &&& pointer(mid, es.last().0@) is Some
                &&& #[trigger] env_value_converted(pointer(mid, es.last().0@)->Some_0, es.last().2->Present_0@, v)
                &&& pointer(after, es.last().0@) == Some(v)
            },
{
    let docs = choose|docs: Seq<JsonValue>| #[trigger] override_trace(before, es, outs, docs) && docs.last() == after;
    let k = es.len() - 1;
    assert(override_step(docs[k], es[k], outs[k], docs[k + 1]));
    let orig = pointer(docs[k], es[k].0@)->Some_0;
    let t = es[k].2->Present_0;
    let v = choose|v: JsonValue| #[trigger] env_value_converted(orig, t@, v) && replaced_at(docs[k], es[k].0@, v, docs[k + 1]);
    lemma_pointer_reads_back_write(docs[k], es[k].0@, v, docs[k + 1]);
    let pre = docs.take(k + 1);
    assert forall|i: int| 0 <= i < es.drop_last().len() implies override_step(
        pre[i],
        #[trigger] es.drop_last()[i],
        outs.drop_last()[i],
        pre[i + 1],
    ) by {
        assert(es.drop_last()[i] == es[i]);
        assert(override_step(docs[i], es[i], outs[i], docs[i + 1]));
    }
    assert(override_trace(before, es.drop_last(), outs.drop_last(), pre));
    assert(env_value_converted(pointer(docs[k], es.last().0@)->Some_0, es.last().2->Present_0@, v));
}

/// The pointers of the overrides lead to places apart from each other (see `pointers_apart`).
pub open spec fn override_pointers_apart(es: Seq<OverrideEntry>) -> bool {
    forall|i: int, j: int| 0 <= i < es.len() && 0 <= j < es.len() && i != j ==> pointers_apart(#[trigger] es[i].0@, #[trigger] es[j].0@)
}

proof fn lemma_same_json_kind(a: JsonValue, b: JsonValue)
    requires
        same_json(a, b),
    ensures
        same_kind(a, b),
{
}

/// What an override reads stays as it is while overrides apart from it are applied.
proof fn lemma_trace_keeps_apart(
    before: JsonValue,
    es: Seq<OverrideEntry>,
    outs: Seq<OverrideOutcome>,
    docs: Seq<JsonValue>,
    q: Seq<char>,
    from: int,
    to: int,
)
    requires
        override_trace(before, es, outs, docs),
        0 <= from <= to <= es.len(),
        forall|k: int| from <= k < to ==> pointers_apart(#[trigger] es[k].0@, q),
    ensures
        pointer(docs[to], q) == pointer(docs[from], q),
    decreases to - from,
{
    if from < to {
        let k = to - 1;
        lemma_trace_keeps_apart(before, es, outs, docs, q, from, k);
        assert(override_step(docs[k], es[k], outs[k], docs[k + 1]));
        assert(pointers_apart(es[k].0@, q));
        if pointer(docs[k], es[k].0@) is Some {
            match es[k].2 {
                EnvLookup::Present(t) => {
                    let orig = pointer(docs[k], es[k].0@)->Some_0;
                    let v = choose|v: JsonValue| #[trigger] env_value_converted(orig, t@, v) && replaced_at(docs[k], es[k].0@, v, docs[k + 1]);
                    lemma_replaced_at_keeps_apart(docs[k], es[k].0@, v, docs[k + 1], q);
                },
                _ => {},
            }
        }
    }
}

/// After the first `n` overrides of a second run, started where a first run ended, the
/// document is still the one the first run left, and each of them did what it did the
/// first time.
proof fn lemma_second_run(
    before: JsonValue,
    es: Seq<OverrideEntry>,
    outs1: Seq<OverrideOutcome>,
    docs1: Seq<JsonValue>,
    outs2: Seq<OverrideOutcome>,
    docs2: Seq<JsonValue>,
    n: int,
)
    requires
        override_trace(before, es, outs1, docs1),
        override_trace(docs1.last(), es, outs2, docs2),
        override_pointers_apart(es),
        0 <= n <= es.len(),
    ensures
        same_json(docs2[n], docs1.last()),
        forall|i: int| 0 <= i < n ==> outs2[i] == outs1[i],
    decreases n,
{
    let mid = docs1.last();
    if n == 0 {
        lemma_same_json_refl(mid);
    } else {
        let i = n - 1;
        lemma_second_run(before, es, outs1, docs1, outs2, docs2, i);
        let e = es[i];
        let p = e.0@;
        assert(override_step(docs1[i], es[i], outs1[i], docs1[i + 1]));
        assert(override_step(docs2[i], es[i], outs2[i], docs2[i + 1]));
        assert forall|k: int| i + 1 <= k < es.len() implies pointers_apart(#[trigger] es[k].0@, p) by {
            assert(pointers_apart(es[k].0@, es[i].0@));
        }
        lemma_trace_keeps_apart(before, es, outs1, docs1, p, i + 1, es.len() as int);
        assert(docs1[es.len() as int] == mid);
        lemma_pointer_same(docs2[i], mid, p);
        lemma_same_json_symm(docs2[i], mid);
        if pointer(docs1[i], p) is Some {
            match e.2 {
                EnvLookup::Present(t) => {
                    let orig = pointer(docs1[i], p)->Some_0;
                    let v = choose|v: JsonValue| #[trigger] env_value_converted(orig, t@, v) && replaced_at(docs1[i], p, v, docs1[i + 1]);
                    lemma_pointer_reads_back_write(docs1[i], p, v, docs1[i + 1]);
                    let w = pointer(docs2[i], p)->Some_0;
                    let v2 = choose|v2: JsonValue| #[trigger] env_value_converted(w, t@, v2) && replaced_at(docs2[i], p, v2, docs2[i + 1]);
                    lemma_converted_kind(orig, t@, v);
                    lemma_same_json_symm(w, v);
                    lemma_same_json_kind(v, w);
                    lemma_converted_same(orig, w, t@, v, v2);
                    lemma_same_json_symm(v, v2);
                    lemma_same_json_trans(v2, v, w);
                    lemma_replaced_at_self(docs2[i], p);
                    lemma_same_json_refl(docs2[i]);
                    lemma_replaced_at_same(docs2[i], docs2[i], p, v2, w, docs2[i + 1], docs2[i]);
                    lemma_same_json_trans(docs2[i + 1], docs2[i], mid);
                },
                _ => {},
            }
        }
    }
}

/// Applying the overrides a second time, with the variables as they were, changes nothing,
/// where their pointers lead to places apart from each other: each does what it did the
/// first time, and the document is the same as after the first time.
pub proof fn lemma_overrides_twice_are_once(
    before: JsonValue,
    es: Seq<OverrideEntry>,
    outs1: Seq<OverrideOutcome>,
    mid: JsonValue,
    outs2: Seq<OverrideOutcome>,
    after: JsonValue,
)
    requires
        overrides_applied(before, es, outs1, mid),
        overrides_applied(mid, es, outs2, after),
        override_pointers_apart(es),
    ensures
        outs2 == outs1,
        same_json(after, mid),
{
    let docs1 = choose|docs: Seq<JsonValue>| #[trigger] override_trace(before, es, outs1, docs) && docs.last() == mid;
    let docs2 = choose|docs: Seq<JsonValue>| #[trigger] override_trace(mid, es, outs2, docs) && docs.last() == after;
    lemma_second_run(before, es, outs1, docs1, outs2, docs2, es.len() as int);
    assert(outs2 =~= outs1);
}

/// Once a value is written at a path of the configuration, reading that path gives it back.
pub proof fn lemma_config_reads_back_write(
    before: Config<ConfigReady>,
    after: Config<ConfigReady>,
    path: Seq<char>,
    value: JsonValue,
)
    requires
        before.value_at(path) is Some,
        after.document() is Some,
        replaced_at(before.document()->Some_0, path, value, after.document()->Some_0),
    ensures
        after.value_at(path) == Some(value),
{
    lemma_pointer_reads_back_write(before.document()->Some_0, path, value, after.document()->Some_0);
}

impl<S: ConfigStates> Clone for Config<S> {
    /// A copy of the configuration: the same environment and directory, a copy of the document.
    fn clone(&self) -> (r: Self)
        ensures
            r.env_name() == self.env_name(),
            r.directory() == self.directory(),
            match (r.document(), self.document()) {
                (Some(a), Some(b)) => same_json(a, b),
                (None, None) => true,
                _ => false,
            },
    {
        Config {
            config: match &self.config {
                Some(c) => Some(c.deep_clone()),
                None => None,
            },
            env: self.env.clone(),
            real_path: match &self.real_path {
                Some(p) => Some(p.clone()),
                None => None,
            },
            _state: PhantomData,
        }
    }
}

} // verus!
