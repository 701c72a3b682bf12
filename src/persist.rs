//! Writing a toggled `enabled` state back into a rules file, touching nothing else.

use vstd::prelude::*;
use crate::error::AppError;
use crate::text::{opt_view, text_eq, to_owned_string};

verus! {

#[verifier::external_type_specification]
#[verifier::external_body]
pub struct ExJsonValue(serde_json::Value);

#[verifier::external_type_specification]
#[verifier::external_body]
pub struct ExJsonError(serde_json::Error);

/// Whether `serde_json::from_str` reads the text as a JSON array.
pub uninterp spec fn json_array_parses(content: Seq<char>) -> bool;

/// For each element of the array that `serde_json::from_str` reads from the
/// text, in order: its `id` field when that is a string (`Value::get`, `Value::as_str`).
pub uninterp spec fn json_entry_ids(content: Seq<char>) -> Seq<Option<Seq<char>>>;

/// The text `serde_json::to_string_pretty` gives for the array read from
/// `content` after, for each edit `(k, key, b)` in order, `Map::insert(key, Bool(b))`
/// on element `k` when that element is an object.
pub uninterp spec fn json_edited_text(content: Seq<char>, edits: Seq<(int, Seq<char>, bool)>) -> Seq<char>;

/// Relies on `serde_json::from_str::<Vec<Value>>`: it fails exactly on text it does not read as an array.
#[verifier::external_body]
fn parse_entries(content: &str) -> (r: Result<Vec<serde_json::Value>, serde_json::Error>)
    ensures
        r is Ok <==> json_array_parses(content@),
{
    serde_json::from_str(content)
}

/// The elements of a rules file, together with the text they were read
/// from and the boolean fields set since.
pub struct JsonArray {
    values: Vec<serde_json::Value>,
    source: Ghost<Seq<char>>,
    edits: Ghost<Seq<(int, Seq<char>, bool)>>,
}

impl JsonArray {
    /// The text the elements were read from.
    pub closed spec fn source(&self) -> Seq<char> {
        self.source@
    }

    /// The fields set since, in order.
    pub closed spec fn edits(&self) -> Seq<(int, Seq<char>, bool)> {
        self.edits@
    }

    /// Reads `content` as a JSON array.
    pub fn parse(content: &str) -> (r: Result<JsonArray, serde_json::Error>)
        ensures
            r is Ok <==> json_array_parses(content@),
            r matches Ok(a) ==> a.source() == content@ && a.edits() == Seq::<(int, Seq<char>, bool)>::empty(),
    {
        match parse_entries(content) {
            Ok(values) => Ok(JsonArray { values, source: Ghost(content@), edits: Ghost(Seq::empty()) }),
            Err(e) => Err(e),
        }
    }

    /// Relies on `Vec::len`: one element per element of the array read.
    #[verifier::external_body]
    pub(crate) fn len(&self) -> (r: usize)
        ensures
            r == json_entry_ids(self.source()).len(),
    {
        self.values.len()
    }

    /// Relies on `serde_json::Value::get` and `Value::as_str`: the `id` of
    /// element `k` when it is a string. Only fields other than `id` are ever set.
    #[verifier::external_body]
    pub(crate) fn id_at(&self, k: usize) -> (r: Option<String>)
        requires
            k < json_entry_ids(self.source()).len(),
        ensures
            opt_view(r) == json_entry_ids(self.source())[k as int],
    {
        self.values[k].get("id").and_then(serde_json::Value::as_str).map(str::to_string)
    }

    /// Relies on `serde_json::Value::as_object_mut` and `Map::insert`: sets the
    /// boolean field `key` of element `k` when it is an object.
    #[verifier::external_body]
    pub(crate) fn set_bool(&mut self, k: usize, key: &str, b: bool)
        requires
            k < json_entry_ids(old(self).source()).len(),
            key@ != "id"@,
        ensures
            final(self).source() == old(self).source(),
            final(self).edits() == old(self).edits().push((k as int, key@, b)),
    {
        if let Some(obj) = self.values[k].as_object_mut() {
            obj.insert(key.to_string(), serde_json::Value::Bool(b));
        }
    }

    /// Relies on `serde_json::to_string_pretty`, which fails only for a failing
    /// `Serialize` impl or non-string map keys; neither occurs in a `Vec<Value>`.
    #[verifier::external_body]
    pub(crate) fn to_pretty(&self) -> (r: Result<String, serde_json::Error>)
        ensures
            r is Ok,
            r matches Ok(t) ==> t@ == json_edited_text(self.source(), self.edits()),
    {
        serde_json::to_string_pretty(&self.values)
    }
}

/// Position of the first entry with this id.
pub open spec fn first_entry(ids: Seq<Option<Seq<char>>>, id: Seq<char>) -> Option<int>
    decreases ids.len(),
{
    if ids.len() == 0 {
        None
    } else {
        match first_entry(ids.drop_last(), id) {
            Some(k) => Some(k),
            None => if ids.last() == Some(id) { Some(ids.len() - 1) } else { None },
        }
    }
}

proof fn lemma_first_entry_prefix(ids: Seq<Option<Seq<char>>>, n: int, id: Seq<char>)
    requires
        0 <= n <= ids.len(),
        first_entry(ids.subrange(0, n), id) is Some,
    ensures
        first_entry(ids, id) == first_entry(ids.subrange(0, n), id),
    decreases ids.len() - n,
{
    if n < ids.len() {
        assert(ids.subrange(0, n + 1).drop_last() =~= ids.subrange(0, n));
        assert(first_entry(ids.subrange(0, n + 1), id) == first_entry(ids.subrange(0, n), id));
        lemma_first_entry_prefix(ids, n + 1, id);
    } else {
        assert(ids.subrange(0, n) =~= ids);
    }
}

proof fn lemma_first_entry_holds(ids: Seq<Option<Seq<char>>>, id: Seq<char>)
    ensures
        first_entry(ids, id) matches Some(k) ==> 0 <= k < ids.len() && ids[k] == Some(id),
    decreases ids.len(),
{
    if ids.len() > 0 {
        lemma_first_entry_holds(ids.drop_last(), id);
    }
}

/// The first element of `entries` whose `id` is `id`.
fn find_entry(entries: &JsonArray, id: &str) -> (r: Option<usize>)
    ensures
        match r {
            Some(k) => first_entry(json_entry_ids(entries.source()), id@) == Some(k as int),
            None => first_entry(json_entry_ids(entries.source()), id@) is None,
        },
{
    let ghost v = json_entry_ids(entries.source());
    let n = entries.len();
    let mut k: usize = 0;
    while k < n
        invariant
            k <= n,
            n == v.len(),
            v == json_entry_ids(entries.source()),
            first_entry(v.subrange(0, k as int), id@) is None,
        decreases n - k,
    {
        let hit = match entries.id_at(k) {
            Some(s) => text_eq(s.as_str(), id),
            None => false,
        };
        assert(v.subrange(0, k + 1).drop_last() =~= v.subrange(0, k as int));
        assert(v.subrange(0, k + 1).last() == v[k as int]);
        if hit {
            proof {
                lemma_first_entry_prefix(v, k as int + 1, id@);
            }
            return Some(k);
        }
        k = k + 1;
    }
    assert(v.subrange(0, n as int) =~= v);
    None
}

/// The new text of a rules file whose current text is `content`, after the
/// rule `rule_id` was set to `enabled`: the first array element with that id
/// gets `"enabled": enabled`, nothing else changes, and the array is written
/// back pretty-printed with a final newline. Fails when the text is not a
/// JSON array or no element has the id.
pub fn rewrite_enabled_flag(content: &str, rule_id: &str, enabled: bool) -> (r: Result<String, AppError>)
    ensures
        !json_array_parses(content@) ==> (r matches Err(e) && e is JsonError),
        json_array_parses(content@) && first_entry(json_entry_ids(content@), rule_id@) is None
            ==> (r matches Err(e) && e is RulesLoadError),
        json_array_parses(content@) && first_entry(json_entry_ids(content@), rule_id@) is Some ==> (r matches Ok(t)
            && t@ == json_edited_text(
                content@,
                seq![(first_entry(json_entry_ids(content@), rule_id@)->0, "enabled"@, enabled)],
            ) + seq!['\n']),
{
    let mut entries = match JsonArray::parse(content) {
        Ok(a) => a,
        Err(e) => return Err(AppError::JsonError(e)),
    };
    let k = match find_entry(&entries, rule_id) {
        Some(k) => k,
        None => {
            let mut msg = to_owned_string("No entry with id ");
            msg.append(rule_id);
            return Err(AppError::RulesLoadError(msg));
        },
    };
    let key = "enabled";
    proof {
        lemma_first_entry_holds(json_entry_ids(content@), rule_id@);
        reveal_strlit("enabled");
        reveal_strlit("id");
        assert(key@.len() != "id"@.len());
    }
    entries.set_bool(k, key, enabled);
    assert(entries.edits() =~= seq![(k as int, "enabled"@, enabled)]);
    match entries.to_pretty() {
        Ok(mut text) => {
            let nl = "\n";
            proof {
                reveal_strlit("\n");
            }
            text.append(nl);
            Ok(text)
        },
        Err(e) => Err(AppError::JsonError(e)),
    }
}

} // verus!
