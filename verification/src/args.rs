//! Resolution of `$var:` and `$res:` placeholders in job arguments.
//!
//! A string argument beginning with `$var:<path>` is replaced by the
//! variable at that path; one beginning with `$res:<path>` is replaced
//! by the resource at that path, which is then resolved again (a
//! resource may itself contain placeholders).  Object members are
//! walked; arrays and every other value pass through unchanged.  A
//! `$res:` path without a `/` is ill-defined and is replaced by a
//! fixed message, as is a path the service has nothing for.
//!
//! The service's answers are taken as a snapshot: a [`ResolutionStore`]
//! lists what fetching each path returns, and a missing entry is a
//! failed fetch.  Resolution of a chain of resources consumes one unit
//! of fuel per fetch, so that a cycle of resources ends after finitely
//! many steps with the last fetched value handed back unresolved.

use crate::json::obj_view;
use crate::json::lemma_obj_view;
use crate::json::Json;
use crate::json::JsonValue;
use crate::text::contains_char;
use crate::text::has_prefix;
use vstd::prelude::*;
use vstd::string::StrSliceExecFns;
use vstd::string::StringExecFns;

verus! {

/// What one fetch of `p` answers: the value of the first entry whose
/// path is `p`, or nothing when no entry has that path.
pub open spec fn lookup<T>(pairs: Seq<(Seq<char>, T)>, p: Seq<char>) -> Option<T>
    decreases pairs.len(),
{
    if pairs.len() == 0 {
        Option::None
    } else if pairs[0].0 == p {
        Option::Some(pairs[0].1)
    } else {
        lookup(pairs.skip(1), p)
    }
}

pub proof fn lemma_lookup_found<T>(pairs: Seq<(Seq<char>, T)>, p: Seq<char>, i: int)
    requires
        0 <= i < pairs.len(),
        pairs[i].0 == p,
        forall|j: int| 0 <= j < i ==> pairs[j].0 != p,
    ensures
        lookup(pairs, p) == Option::Some(pairs[i].1),
    decreases i,
{
    if i > 0 {
        assert forall|j: int| 0 <= j < i - 1 implies pairs.skip(1)[j].0 != p by {
            assert(pairs[j + 1].0 != p);
        }
        lemma_lookup_found(pairs.skip(1), p, i - 1);
    }
}

pub proof fn lemma_lookup_none<T>(pairs: Seq<(Seq<char>, T)>, p: Seq<char>)
    requires
        forall|j: int| 0 <= j < pairs.len() ==> pairs[j].0 != p,
    ensures
        lookup(pairs, p) is None,
    decreases pairs.len(),
{
    if pairs.len() > 0 {
        assert forall|j: int| 0 <= j < pairs.len() - 1 implies pairs.skip(1)[j].0 != p by {
            assert(pairs[j + 1].0 != p);
        }
        lemma_lookup_none(pairs.skip(1), p);
    }
}

/// The models of a sequence of variable entries, elementwise.
pub open spec fn var_pairs_view(pairs: Seq<(String, String)>) -> Seq<(Seq<char>, Seq<char>)>
    decreases pairs,
{
    if pairs.len() == 0 {
        Seq::empty()
    } else {
        var_pairs_view(pairs.drop_last()).push((pairs.last().0@, pairs.last().1@))
    }
}

pub proof fn lemma_var_pairs_view(pairs: Seq<(String, String)>)
    ensures
        var_pairs_view(pairs).len() == pairs.len(),
        forall|i: int| 0 <= i < pairs.len() ==> var_pairs_view(pairs)[i] == (
            #[trigger] pairs[i].0@,
            pairs[i].1@,
        ),
    decreases pairs,
{
    if pairs.len() > 0 {
        lemma_var_pairs_view(pairs.drop_last());
        assert forall|i: int| 0 <= i < pairs.len() implies var_pairs_view(pairs)[i] == (
            #[trigger] pairs[i].0@,
            pairs[i].1@,
        ) by {
            if i < pairs.len() - 1 {
                assert(pairs.drop_last()[i] == pairs[i]);
            } else {
                assert(pairs.last() == pairs[i]);
            }
        }
    }
}

/// A snapshot of the variable/resource service: what fetching each
/// path returns.  The first entry for a path answers; a path with no
/// entry is a failed fetch.
pub struct ResolutionStore {
    pub vars: Vec<(String, String)>,
    pub resources: Vec<(String, JsonValue)>,
}

/// The model of a [`ResolutionStore`].
pub struct StoreModel {
    pub vars: Seq<(Seq<char>, Seq<char>)>,
    pub resources: Seq<(Seq<char>, Json)>,
}

impl View for ResolutionStore {
    type V = StoreModel;

    open spec fn view(&self) -> StoreModel {
        StoreModel {
            vars: var_pairs_view(self.vars@),
            resources: obj_view(self.resources@),
        }
    }
}

/// Whether `s` is a variable reference.
pub open spec fn is_var_ref(s: Seq<char>) -> bool {
    "$var:"@.is_prefix_of(s)
}

/// Whether `s` is a resource reference.
pub open spec fn is_res_ref(s: Seq<char>) -> bool {
    "$res:"@.is_prefix_of(s)
}

/// The path of a reference: what follows the five-character marker.
pub open spec fn ref_path(s: Seq<char>) -> Seq<char> {
    s.skip(5)
}

/// A resource path must have at least two segments: it names a
/// directory and an entry, so it must contain a separator.
pub open spec fn valid_res_path(p: Seq<char>) -> bool {
    p.contains('/')
}

/// The replacement for a variable reference whose fetch failed.
pub open spec fn var_error_text(p: Seq<char>) -> Seq<char> {
    "error fetching variable "@ + p
}

/// The replacement for a resource reference whose fetch failed.
pub open spec fn res_error_text(p: Seq<char>) -> Seq<char> {
    "error fetching resource "@ + p
}

/// The replacement for a resource reference whose path is ill-defined.
pub open spec fn ill_defined_text(p: Seq<char>) -> Seq<char> {
    "resource path: "@ + p + " is ill-defined"@
}

/// What resolving `j` against the snapshot returns.  One unit of fuel
/// is spent on each resource fetch; at zero the fetched value is
/// handed back as it is.
pub open spec fn resolve_spec(j: Json, store: StoreModel, fuel: nat) -> Json
    decreases fuel, j,
{
    match j {
        Json::Str(s) => {
            if is_var_ref(s) {
                match lookup(store.vars, ref_path(s)) {
                    Option::Some(v) => Json::Str(v),
                    Option::None => Json::Str(var_error_text(ref_path(s))),
                }
            } else if is_res_ref(s) {
                let p = ref_path(s);
                if !valid_res_path(p) {
                    Json::Str(ill_defined_text(p))
                } else {
                    let fetched = match lookup(store.resources, p) {
                        Option::Some(r) => r,
                        Option::None => Json::Str(res_error_text(p)),
                    };
                    if fuel == 0 {
                        fetched
                    } else {
                        resolve_spec(fetched, store, (fuel - 1) as nat)
                    }
                }
            } else {
                j
            }
        },
        Json::Obj(fields) => Json::Obj(resolve_fields_spec(fields, store, fuel)),
        _ => j,
    }
}

/// Resolution of object members, elementwise on the values.
pub open spec fn resolve_fields_spec(
    fields: Seq<(Seq<char>, Json)>,
    store: StoreModel,
    fuel: nat,
) -> Seq<(Seq<char>, Json)>
    decreases fuel, fields,
{
    if fields.len() == 0 {
        Seq::empty()
    } else {
        resolve_fields_spec(fields.drop_last(), store, fuel).push(
            (fields.last().0, resolve_spec(fields.last().1, store, fuel)),
        )
    }
}

pub proof fn lemma_resolve_fields_spec(fields: Seq<(Seq<char>, Json)>, store: StoreModel, fuel: nat)
    ensures
        resolve_fields_spec(fields, store, fuel).len() == fields.len(),
        forall|i: int| 0 <= i < fields.len() ==> resolve_fields_spec(fields, store, fuel)[i] == (
            #[trigger] fields[i].0,
            resolve_spec(fields[i].1, store, fuel),
        ),
    decreases fields,
{
    if fields.len() > 0 {
        lemma_resolve_fields_spec(fields.drop_last(), store, fuel);
        assert forall|i: int| 0 <= i < fields.len() implies resolve_fields_spec(
            fields,
            store,
            fuel,
        )[i] == (#[trigger] fields[i].0, resolve_spec(fields[i].1, store, fuel)) by {
            if i < fields.len() - 1 {
                assert(fields.drop_last()[i] == fields[i]);
            } else {
                assert(fields.last() == fields[i]);
            }
        }
    }
}

impl ResolutionStore {
    /// The variable at `p`: the first entry under that path.
    pub fn get_variable(&self, p: &String) -> (r: Option<&String>)
        ensures
            match r {
                Option::Some(v) => lookup(self@.vars, p@) == Option::Some(v@),
                Option::None => lookup(self@.vars, p@) is None,
            },
    {
        proof {
            lemma_var_pairs_view(self.vars@);
        }
        let mut i: usize = 0;
        while i < self.vars.len()
            invariant
                0 <= i <= self.vars@.len(),
                self@.vars.len() == self.vars@.len(),
                forall|j: int| 0 <= j < self.vars@.len() ==> #[trigger] self@.vars[j] == (
                    self.vars@[j].0@,
                    self.vars@[j].1@,
                ),
                forall|j: int| 0 <= j < i ==> #[trigger] self.vars@[j].0@ != p@,
            decreases self.vars@.len() - i,
        {
            let pair = &self.vars[i];
            if pair.0 == *p {
                proof {
                    assert forall|j: int| 0 <= j < i implies self@.vars[j].0 != p@ by {
                        assert(self.vars@[j].0@ != p@);
                    }
                    lemma_lookup_found(self@.vars, p@, i as int);
                }
                return Option::Some(&pair.1);
            }
            i += 1;
        }
        proof {
            assert forall|j: int| 0 <= j < self@.vars.len() implies self@.vars[j].0 != p@ by {
                assert(self.vars@[j].0@ != p@);
            }
            lemma_lookup_none(self@.vars, p@);
        }
        Option::None
    }

    /// The resource at `p`: the first entry under that path.
    pub fn get_resource(&self, p: &String) -> (r: Option<&JsonValue>)
        ensures
            match r {
                Option::Some(v) => lookup(self@.resources, p@) == Option::Some(v@),
                Option::None => lookup(self@.resources, p@) is None,
            },
    {
        proof {
            lemma_obj_view(self.resources@);
        }
        let mut i: usize = 0;
        while i < self.resources.len()
            invariant
                0 <= i <= self.resources@.len(),
                self@.resources.len() == self.resources@.len(),
                forall|j: int| 0 <= j < self.resources@.len() ==> #[trigger] self@.resources[j]
                    == (self.resources@[j].0@, self.resources@[j].1@),
                forall|j: int| 0 <= j < i ==> #[trigger] self.resources@[j].0@ != p@,
            decreases self.resources@.len() - i,
        {
            let pair = &self.resources[i];
            if pair.0 == *p {
                proof {
                    assert forall|j: int| 0 <= j < i implies self@.resources[j].0 != p@ by {
                        assert(self.resources@[j].0@ != p@);
                    }
                    lemma_lookup_found(self@.resources, p@, i as int);
                }
                return Option::Some(&pair.1);
            }
            i += 1;
        }
        proof {
            assert forall|j: int| 0 <= j < self@.resources.len() implies self@.resources[j].0
                != p@ by {
                assert(self.resources@[j].0@ != p@);
            }
            lemma_lookup_none(self@.resources, p@);
        }
        Option::None
    }
}

fn error_value(prefix: &str, p: &String) -> (r: JsonValue)
    ensures
        r@ == Json::Str(prefix@ + p@),
{
    let mut m = String::from_str(prefix);
    m.append(p.as_str());
    JsonValue::Str(m)
}

/// Resolves the placeholders of `v` against the snapshot `store`,
/// spending one unit of `fuel` per resource fetch.
pub fn transform_json_value(v: &JsonValue, store: &ResolutionStore, fuel: u32) -> (r: JsonValue)
    ensures
        r@ == resolve_spec(v@, store@, fuel as nat),
    decreases fuel, v,
{
    match v {
        JsonValue::Str(s) => {
            let n = s.as_str().unicode_len();
            proof {
                reveal_strlit("$var:");
                reveal_strlit("$res:");
            }
            if has_prefix(s.as_str(), "$var:") {
                let path = String::from_str(s.as_str().substring_char(5, n));
                proof {
                    assert(path@ =~= ref_path(s@));
                }
                match store.get_variable(&path) {
                    Option::Some(val) => JsonValue::Str(val.clone()),
                    Option::None => error_value("error fetching variable ", &path),
                }
            } else if has_prefix(s.as_str(), "$res:") {
                let path = String::from_str(s.as_str().substring_char(5, n));
                proof {
                    assert(path@ =~= ref_path(s@));
                }
                if !contains_char(path.as_str(), '/') {
                    let mut m = String::from_str("resource path: ");
                    m.append(path.as_str());
                    m.append(" is ill-defined");
                    proof {
                        assert(m@ =~= ill_defined_text(ref_path(s@)));
                    }
                    JsonValue::Str(m)
                } else {
                    let fetched: JsonValue = match store.get_resource(&path) {
                        Option::Some(val) => val.clone_value(),
                        Option::None => error_value("error fetching resource ", &path),
                    };
                    if fuel == 0 {
                        fetched
                    } else {
                        transform_json_value(&fetched, store, fuel - 1)
                    }
                }
            } else {
                JsonValue::Str(s.clone())
            }
        },
        JsonValue::Obj(fields) => {
            let ghost js = obj_view(fields@);
            proof {
                lemma_obj_view(fields@);
            }
            let mut out: Vec<(String, JsonValue)> = Vec::new();
            let mut i: usize = 0;
            while i < fields.len()
                invariant
                    v is Obj,
                    v->Obj_0 == *fields,
                    js == obj_view(fields@),
                    js.len() == fields@.len(),
                    forall|k: int| 0 <= k < fields@.len() ==> js[k] == (
                        #[trigger] fields@[k].0@,
                        fields@[k].1@,
                    ),
                    0 <= i <= fields@.len(),
                    out@.len() == i,
                    forall|k: int| 0 <= k < i ==> (#[trigger] out@[k].0@, out@[k].1@) == (
                        js[k].0,
                        resolve_spec(js[k].1, store@, fuel as nat),
                    ),
                decreases fields@.len() - i,
            {
                let (k, val) = &fields[i];
                proof {
                    assert(decreases_to!(*v => v->Obj_0));
                    assert(decreases_to!(v->Obj_0 => fields@));
                    assert(decreases_to!(fields@ => fields@[i as int]));
                    assert(decreases_to!(fields@[i as int] => fields@[i as int].1));
                }
                let rv = transform_json_value(val, store, fuel);
                out.push((k.clone(), rv));
                i += 1;
            }
            proof {
                lemma_obj_view(out@);
                lemma_resolve_fields_spec(js, store@, fuel as nat);
                assert forall|k: int| 0 <= k < out@.len() implies obj_view(out@)[k]
                    == resolve_fields_spec(js, store@, fuel as nat)[k] by {
                    assert((out@[k].0@, out@[k].1@) == (
                        js[k].0,
                        resolve_spec(js[k].1, store@, fuel as nat),
                    ));
                }
                assert(obj_view(out@) =~= resolve_fields_spec(js, store@, fuel as nat));
            }
            JsonValue::Obj(out)
        },
        _ => v.clone_value(),
    }
}

/// Whether `j` holds no placeholder reference anywhere resolution
/// looks: no string of `j` itself or of an object member, recursively,
/// begins with a reference marker.  Strings inside arrays do not
/// matter: arrays are not walked.
pub open spec fn placeholder_free(j: Json) -> bool
    decreases j,
{
    match j {
        Json::Str(s) => !is_var_ref(s) && !is_res_ref(s),
        Json::Obj(fields) => fields_placeholder_free(fields),
        _ => true,
    }
}

/// Whether every member value of an object is placeholder-free.
pub open spec fn fields_placeholder_free(fields: Seq<(Seq<char>, Json)>) -> bool
    decreases fields,
{
    if fields.len() == 0 {
        true
    } else {
        fields_placeholder_free(fields.drop_last()) && placeholder_free(fields.last().1)
    }
}

/// Law: resolution is the identity on a value without placeholders,
/// whatever the service would answer and whatever fuel is at hand.  In
/// particular it never changes a non-string, non-object value, nor a
/// string that does not begin with a reference marker.
pub proof fn lemma_resolve_identity(j: Json, store: StoreModel, fuel: nat)
    requires
        placeholder_free(j),
    ensures
        resolve_spec(j, store, fuel) == j,
    decreases j,
{
    match j {
        Json::Obj(fields) => {
            lemma_resolve_fields_identity(fields, store, fuel);
        },
        _ => {},
    }
}

/// Law: resolution leaves every member of an object without
/// placeholders as it is.
pub proof fn lemma_resolve_fields_identity(
    fields: Seq<(Seq<char>, Json)>,
    store: StoreModel,
    fuel: nat,
)
    requires
        fields_placeholder_free(fields),
    ensures
        resolve_fields_spec(fields, store, fuel) == fields,
    decreases fields,
{
    if fields.len() > 0 {
        lemma_resolve_fields_identity(fields.drop_last(), store, fuel);
        lemma_resolve_identity(fields.last().1, store, fuel);
        assert(resolve_fields_spec(fields, store, fuel) =~= fields.drop_last().push(
            fields.last(),
        ));
        assert(fields.drop_last().push(fields.last()) =~= fields);
    }
}

/// Law: resolving a resource reference is idempotent when the fetched
/// resource itself holds no placeholders — the reference resolves to
/// the resource, and resolving that resource again changes nothing.
pub proof fn lemma_res_resolution_idempotent(
    s: Seq<char>,
    store: StoreModel,
    fuel: nat,
    r: Json,
)
    requires
        is_res_ref(s),
        valid_res_path(ref_path(s)),
        lookup(store.resources, ref_path(s)) == Option::Some(r),
        placeholder_free(r),
        fuel >= 1,
    ensures
        resolve_spec(Json::Str(s), store, fuel) == r,
{
    reveal_strlit("$var:");
    reveal_strlit("$res:");
    assert(!is_var_ref(s)) by {
        if is_var_ref(s) {
            assert(s.subrange(0, 5)[1] == "$var:"@[1]);
            assert(s.subrange(0, 5)[1] == "$res:"@[1]);
        }
    }
    lemma_resolve_identity(r, store, (fuel - 1) as nat);
}

} // verus!
