use vstd::prelude::*;
use crate::error::{err_prefixed, ErrV, ParseError, PathPart, PathPartV};
use crate::json::{
    clone_entries, find_field, jv, jv_entries, jv_seq, lemma_jv_entries, lemma_jv_seq,
    lemma_obj_index_props, obj_get, obj_has, obj_index, str_eq, JsonValue, Jv,
};
use crate::model::{
    opt_splits_view, opt_str_view, split_seq_view, split_view, Autostart, AutostartV,
    ComparisonTypes, Config, ConfigV, InGameTime, InGameTimeV, SplitDefinition, SplitDefinitionV,
};

verus! {

/// The result of a fallible step, at the model level.
pub open spec fn res_view<T: View, E: View>(r: Result<T, E>) -> Result<T::V, E::V> {
    match r {
        Ok(t) => Ok(t@),
        Err(e) => Err(e@),
    }
}

/// The comparison kind a document tag stands for; `None` outside the closed
/// twelve-tag set.
pub open spec fn spec_comparison_of(s: Seq<char>) -> Option<ComparisonTypes> {
    if s == "bit"@ {
        Some(ComparisonTypes::Bit)
    } else if s == "eq"@ {
        Some(ComparisonTypes::Eq)
    } else if s == "gte"@ {
        Some(ComparisonTypes::Gte)
    } else if s == "gt"@ {
        Some(ComparisonTypes::Gt)
    } else if s == "lte"@ {
        Some(ComparisonTypes::Lte)
    } else if s == "lt"@ {
        Some(ComparisonTypes::Lt)
    } else if s == "wbit"@ {
        Some(ComparisonTypes::Wbit)
    } else if s == "weq"@ {
        Some(ComparisonTypes::Weq)
    } else if s == "wgt"@ {
        Some(ComparisonTypes::Wgt)
    } else if s == "wgte"@ {
        Some(ComparisonTypes::Wgte)
    } else if s == "wlte"@ {
        Some(ComparisonTypes::Wlte)
    } else if s == "wlt"@ {
        Some(ComparisonTypes::Wlt)
    } else {
        None
    }
}

/// An optional string field of an object: absent or null is `None`, present
/// with any other non-string value a type mismatch at that key.
pub open spec fn spec_opt_str(o: Seq<(Seq<char>, Jv)>, key: Seq<char>) -> Result<
    Option<Seq<char>>,
    ErrV,
> {
    if !obj_has(o, key) {
        Ok(None)
    } else {
        match obj_get(o, key) {
            Jv::Text(s) => Ok(Some(s)),
            Jv::Null => Ok(None),
            _ => Err(ErrV::TypeMismatch(seq![PathPartV::Key(key)])),
        }
    }
}

/// A required string field of an object: absent is a missing-field failure
/// naming the key, present with a non-string value a type mismatch.
pub open spec fn spec_req_str(o: Seq<(Seq<char>, Jv)>, key: Seq<char>) -> Result<Seq<char>, ErrV> {
    if !obj_has(o, key) {
        Err(ErrV::MissingField(Seq::empty(), key))
    } else {
        match obj_get(o, key) {
            Jv::Text(s) => Ok(s),
            _ => Err(ErrV::TypeMismatch(seq![PathPartV::Key(key)])),
        }
    }
}

/// A split definition read from a document node.  Field order decides which
/// failure is reported when several fields are faulty: name, note, address,
/// value, type, next, more.
pub open spec fn spec_parse_split(v: Jv) -> Result<SplitDefinitionV, ErrV>
    decreases v,
{
    match v {
        Jv::Object(o) => match spec_opt_str(o, "name"@) {
            Err(e) => Err(e),
            Ok(name) => match spec_opt_str(o, "note"@) {
                Err(e) => Err(e),
                Ok(note) => match spec_req_str(o, "address"@) {
                    Err(e) => Err(e),
                    Ok(address) => match spec_req_str(o, "value"@) {
                        Err(e) => Err(e),
                        Ok(value) => match spec_req_str(o, "type"@) {
                            Err(e) => Err(e),
                            Ok(tag) => match spec_comparison_of(tag) {
                                None => Err(
                                    ErrV::UnrecognizedComparisonType(
                                        seq![PathPartV::Key("type"@)],
                                        tag,
                                    ),
                                ),
                                Some(kind) => match spec_split_list_opt(o, "next"@) {
                                    Err(e) => Err(e),
                                    Ok(next) => match spec_split_list_opt(o, "more"@) {
                                        Err(e) => Err(e),
                                        Ok(more) => Ok(
                                            SplitDefinitionV {
                                                name,
                                                note,
                                                address,
                                                value,
                                                kind,
                                                next,
                                                more,
                                            },
                                        ),
                                    },
                                },
                            },
                        },
                    },
                },
            },
        },
        _ => Err(ErrV::TypeMismatch(Seq::empty())),
    }
}

/// An optional list-of-splits field of an object: absent or null is `None`,
/// present with any other non-array value a type mismatch; failures inside
/// the list are located under the key.
pub open spec fn spec_split_list_opt(o: Seq<(Seq<char>, Jv)>, key: Seq<char>) -> Result<
    Option<Seq<SplitDefinitionV>>,
    ErrV,
>
    decreases o,
        via spec_split_list_opt_decreases
{
    if !obj_has(o, key) {
        Ok(None)
    } else {
        match obj_get(o, key) {
            Jv::Array(items) => match spec_parse_split_list(items) {
                Ok(l) => Ok(Some(l)),
                Err(e) => Err(err_prefixed(e, PathPartV::Key(key))),
            },
            Jv::Null => Ok(None),
            _ => Err(ErrV::TypeMismatch(seq![PathPartV::Key(key)])),
        }
    }
}

#[via_fn]
proof fn spec_split_list_opt_decreases(o: Seq<(Seq<char>, Jv)>, key: Seq<char>) {
    lemma_obj_index_props(o, key);
    if obj_has(o, key) {
        let idx = obj_index(o, key);
        assert(decreases_to!(o => o[idx]));
        assert(decreases_to!(o[idx] => o[idx].1));
        if obj_get(o, key) is Array {
            assert(decreases_to!(o[idx].1 => o[idx].1->Array_0));
        }
    }
}

/// A sequence of split definitions read in document order; the first faulty
/// entry decides the failure, located at its position.
pub open spec fn spec_parse_split_list(items: Seq<Jv>) -> Result<Seq<SplitDefinitionV>, ErrV>
    decreases items,
{
    if items.len() == 0 {
        Ok(Seq::empty())
    } else {
        match spec_parse_split_list(items.drop_last()) {
            Err(e) => Err(e),
            Ok(pre) => match spec_parse_split(items.last()) {
                Ok(s) => Ok(pre.push(s)),
                Err(e) => Err(err_prefixed(e, PathPartV::At(items.len() - 1))),
            },
        }
    }
}

/// An in-game-time block read from a document node: five required string
/// fields, checked in order active, framesAddress, secondsAddress,
/// minutesAddress, hoursAddress.
pub open spec fn spec_parse_igt(v: Jv) -> Result<InGameTimeV, ErrV> {
    match v {
        Jv::Object(o) => match spec_req_str(o, "active"@) {
            Err(e) => Err(e),
            Ok(active) => match spec_req_str(o, "framesAddress"@) {
                Err(e) => Err(e),
                Ok(frames_address) => match spec_req_str(o, "secondsAddress"@) {
                    Err(e) => Err(e),
                    Ok(seconds_address) => match spec_req_str(o, "minutesAddress"@) {
                        Err(e) => Err(e),
                        Ok(minutes_address) => match spec_req_str(o, "hoursAddress"@) {
                            Err(e) => Err(e),
                            Ok(hours_address) => Ok(
                                InGameTimeV {
                                    active,
                                    frames_address,
                                    seconds_address,
                                    minutes_address,
                                    hours_address,
                                },
                            ),
                        },
                    },
                },
            },
        },
        _ => Err(ErrV::TypeMismatch(Seq::empty())),
    }
}

/// An autostart block read from a document node: required active, address,
/// value and type fields, optional next and more lists, checked in that
/// order.
pub open spec fn spec_parse_autostart(v: Jv) -> Result<AutostartV, ErrV> {
    match v {
        Jv::Object(o) => match spec_req_str(o, "active"@) {
            Err(e) => Err(e),
            Ok(active) => match spec_req_str(o, "address"@) {
                Err(e) => Err(e),
                Ok(address) => match spec_req_str(o, "value"@) {
                    Err(e) => Err(e),
                    Ok(value) => match spec_req_str(o, "type"@) {
                        Err(e) => Err(e),
                        Ok(tag) => match spec_comparison_of(tag) {
                            None => Err(
                                ErrV::UnrecognizedComparisonType(seq![PathPartV::Key("type"@)], tag),
                            ),
                            Some(kind) => match spec_split_list_opt(o, "next"@) {
                                Err(e) => Err(e),
                                Ok(next) => match spec_split_list_opt(o, "more"@) {
                                    Err(e) => Err(e),
                                    Ok(more) => Ok(
                                        AutostartV { active, address, value, kind, next, more },
                                    ),
                                },
                            },
                        },
                    },
                },
            },
        },
        _ => Err(ErrV::TypeMismatch(Seq::empty())),
    }
}

/// The optional autostart field of the root object: absent or null is
/// `None`.
pub open spec fn spec_autostart_opt(o: Seq<(Seq<char>, Jv)>) -> Result<Option<AutostartV>, ErrV> {
    if !obj_has(o, "autostart"@) {
        Ok(None)
    } else if obj_get(o, "autostart"@) is Null {
        Ok(None)
    } else {
        match spec_parse_autostart(obj_get(o, "autostart"@)) {
            Ok(a) => Ok(Some(a)),
            Err(e) => Err(err_prefixed(e, PathPartV::Key("autostart"@))),
        }
    }
}

/// The optional igt field of the root object: absent or null is `None`.
pub open spec fn spec_igt_opt(o: Seq<(Seq<char>, Jv)>) -> Result<Option<InGameTimeV>, ErrV> {
    if !obj_has(o, "igt"@) {
        Ok(None)
    } else if obj_get(o, "igt"@) is Null {
        Ok(None)
    } else {
        match spec_parse_igt(obj_get(o, "igt"@)) {
            Ok(t) => Ok(Some(t)),
            Err(e) => Err(err_prefixed(e, PathPartV::Key("igt"@))),
        }
    }
}

/// The alias mapping of the root object: absent defaults to the empty
/// mapping; present, it must be an object, kept as its entries.
pub open spec fn spec_alias(o: Seq<(Seq<char>, Jv)>) -> Result<Seq<(Seq<char>, Jv)>, ErrV> {
    if !obj_has(o, "alias"@) {
        Ok(Seq::empty())
    } else {
        match obj_get(o, "alias"@) {
            Jv::Object(es) => Ok(es),
            _ => Err(ErrV::TypeMismatch(seq![PathPartV::Key("alias"@)])),
        }
    }
}

/// The required definitions list of the root object.
pub open spec fn spec_definitions(o: Seq<(Seq<char>, Jv)>) -> Result<Seq<SplitDefinitionV>, ErrV> {
    if !obj_has(o, "definitions"@) {
        Err(ErrV::MissingField(Seq::empty(), "definitions"@))
    } else {
        match obj_get(o, "definitions"@) {
            Jv::Array(items) => match spec_parse_split_list(items) {
                Ok(l) => Ok(l),
                Err(e) => Err(err_prefixed(e, PathPartV::Key("definitions"@))),
            },
            _ => Err(ErrV::TypeMismatch(seq![PathPartV::Key("definitions"@)])),
        }
    }
}

/// A whole configuration read from a document node: fields are checked in
/// the order name, autostart, igt, alias, definitions.
pub open spec fn spec_parse_config(v: Jv) -> Result<ConfigV, ErrV> {
    match v {
        Jv::Object(o) => match spec_opt_str(o, "name"@) {
            Err(e) => Err(e),
            Ok(name) => match spec_autostart_opt(o) {
                Err(e) => Err(e),
                Ok(autostart) => match spec_igt_opt(o) {
                    Err(e) => Err(e),
                    Ok(igt) => match spec_alias(o) {
                        Err(e) => Err(e),
                        Ok(alias) => match spec_definitions(o) {
                            Err(e) => Err(e),
                            Ok(definitions) => Ok(
                                ConfigV { name, autostart, igt, alias, definitions },
                            ),
                        },
                    },
                },
            },
        },
        _ => Err(ErrV::TypeMismatch(Seq::empty())),
    }
}

/// The JSON value tree encoded by a text, or `None` when the text is not a
/// well-formed JSON document.  This names what `serde_json::from_str`
/// computes; it depends on the text alone.
pub uninterp spec fn json_doc_of(s: Seq<char>) -> Option<Jv>;

#[verifier::external_type_specification]
#[verifier::external_body]
pub struct ExSerdeValue(serde_json::Value);

/// Relies on the shape of serde_json::Value: each variant is carried over
/// one for one, numbers as their canonical text.
#[verifier::external_body]
fn value_to_json(v: serde_json::Value) -> JsonValue {
    match v {
        serde_json::Value::Null => JsonValue::Null,
        serde_json::Value::Bool(b) => JsonValue::Bool(b),
        serde_json::Value::Number(n) => JsonValue::Number(n.to_string()),
        serde_json::Value::String(s) => JsonValue::Text(s),
        serde_json::Value::Array(a) => JsonValue::Array(
            a.into_iter().map(value_to_json).collect(),
        ),
        serde_json::Value::Object(m) => JsonValue::Object(
            m.into_iter().map(|(k, x)| (k, value_to_json(x))).collect(),
        ),
    }
}

/// Relies on serde_json::from_str::<serde_json::Value>: it builds the value
/// tree of a JSON text, converted here variant for variant, and fails
/// exactly on texts that are not well-formed JSON, with the reader's
/// message.  The tree is a function of the text alone, named `json_doc_of`.
#[verifier::external_body]
fn parse_json_text(text: &str) -> (r: Result<JsonValue, String>)
    ensures
        (match r {
            Ok(v) => json_doc_of(text@) == Some(jv(v)),
            Err(_) => json_doc_of(text@) is None,
        }),
{
    match serde_json::from_str::<serde_json::Value>(text) {
        Ok(v) => Ok(value_to_json(v)),
        Err(e) => Err(e.to_string()),
    }
}

fn empty_path() -> (r: Vec<PathPart>)
    ensures
        crate::error::path_view(r@) == Seq::<PathPartV>::empty(),
{
    let p: Vec<PathPart> = Vec::new();
    proof {
        assert(crate::error::path_view(p@) =~= Seq::<PathPartV>::empty());
    }
    p
}

fn key_path(key: &str) -> (r: Vec<PathPart>)
    ensures
        crate::error::path_view(r@) == seq![PathPartV::Key(key@)],
{
    let mut p: Vec<PathPart> = Vec::new();
    p.push(PathPart::Key(key.to_owned()));
    proof {
        assert(crate::error::path_view(p@) =~= seq![PathPartV::Key(key@)]);
    }
    p
}

/// The comparison kind a document tag stands for, decided against the
/// closed twelve-tag set.
pub fn comparison_of(tag: &str) -> (r: Option<ComparisonTypes>)
    ensures
        r == spec_comparison_of(tag@),
{
    if str_eq(tag, "bit") {
        Some(ComparisonTypes::Bit)
    } else if str_eq(tag, "eq") {
        Some(ComparisonTypes::Eq)
    } else if str_eq(tag, "gte") {
        Some(ComparisonTypes::Gte)
    } else if str_eq(tag, "gt") {
        Some(ComparisonTypes::Gt)
    } else if str_eq(tag, "lte") {
        Some(ComparisonTypes::Lte)
    } else if str_eq(tag, "lt") {
        Some(ComparisonTypes::Lt)
    } else if str_eq(tag, "wbit") {
        Some(ComparisonTypes::Wbit)
    } else if str_eq(tag, "weq") {
        Some(ComparisonTypes::Weq)
    } else if str_eq(tag, "wgt") {
        Some(ComparisonTypes::Wgt)
    } else if str_eq(tag, "wgte") {
        Some(ComparisonTypes::Wgte)
    } else if str_eq(tag, "wlte") {
        Some(ComparisonTypes::Wlte)
    } else if str_eq(tag, "wlt") {
        Some(ComparisonTypes::Wlt)
    } else {
        None
    }
}

fn opt_str_field(entries: &Vec<(String, JsonValue)>, key: &str) -> (r: Result<
    Option<String>,
    ParseError,
>)
    ensures
        (match r {
            Ok(x) => spec_opt_str(jv_entries(entries@), key@) == Ok::<Option<Seq<char>>, ErrV>(
                opt_str_view(x),
            ),
            Err(e) => spec_opt_str(jv_entries(entries@), key@) == Err::<Option<Seq<char>>, ErrV>(
                e@,
            ),
        }),
{
    proof {
        lemma_jv_entries(entries@);
    }
    match find_field(entries, key) {
        None => Ok(None),
        Some(i) => match &entries[i].1 {
            JsonValue::Text(s) => Ok(Some(s.clone())),
            JsonValue::Null => Ok(None),
            _ => Err(ParseError::TypeMismatch(key_path(key))),
        },
    }
}

fn req_str_field(entries: &Vec<(String, JsonValue)>, key: &str) -> (r: Result<String, ParseError>)
    ensures
        (match r {
            Ok(x) => spec_req_str(jv_entries(entries@), key@) == Ok::<Seq<char>, ErrV>(x@),
            Err(e) => spec_req_str(jv_entries(entries@), key@) == Err::<Seq<char>, ErrV>(e@),
        }),
{
    proof {
        lemma_jv_entries(entries@);
    }
    match find_field(entries, key) {
        None => Err(ParseError::MissingField(empty_path(), key.to_owned())),
        Some(i) => match &entries[i].1 {
            JsonValue::Text(s) => Ok(s.clone()),
            _ => Err(ParseError::TypeMismatch(key_path(key))),
        },
    }
}

proof fn lemma_split_list_err(items: Seq<Jv>, i: int)
    requires
        0 <= i < items.len(),
        spec_parse_split_list(items.subrange(0, i)) is Ok,
        spec_parse_split(items[i]) is Err,
    ensures
        spec_parse_split_list(items) == Err::<Seq<SplitDefinitionV>, ErrV>(
            err_prefixed(spec_parse_split(items[i])->Err_0, PathPartV::At(i)),
        ),
    decreases items.len(),
{
    if items.len() == i + 1 {
        assert(items.drop_last() =~= items.subrange(0, i));
        assert(items.last() == items[i]);
    } else {
        assert(items.drop_last().subrange(0, i) =~= items.subrange(0, i));
        assert(items.drop_last()[i] == items[i]);
        lemma_split_list_err(items.drop_last(), i);
    }
}

/// One split definition read from a document node.
fn parse_split(v: &JsonValue) -> (r: Result<SplitDefinition, ParseError>)
    ensures
        res_view(r) == spec_parse_split(jv(*v)),
    decreases *v,
{
    match v {
        JsonValue::Object(entries) => {
            proof {
                lemma_jv_entries(entries@);
                assert(v->Object_0 == *entries);
                assert(decreases_to!(*v => v->Object_0));
                assert(decreases_to!(*entries => entries@));
            }
            let name = match opt_str_field(entries, "name") {
                Ok(x) => x,
                Err(e) => return Err(e),
            };
            let note = match opt_str_field(entries, "note") {
                Ok(x) => x,
                Err(e) => return Err(e),
            };
            let address = match req_str_field(entries, "address") {
                Ok(x) => x,
                Err(e) => return Err(e),
            };
            let value = match req_str_field(entries, "value") {
                Ok(x) => x,
                Err(e) => return Err(e),
            };
            let tag = match req_str_field(entries, "type") {
                Ok(x) => x,
                Err(e) => return Err(e),
            };
            let kind = match comparison_of(tag.as_str()) {
                Some(k) => k,
                None => return Err(ParseError::UnrecognizedComparisonType(key_path("type"), tag)),
            };
            let next = match split_list_field(entries, "next") {
                Ok(x) => x,
                Err(e) => return Err(e),
            };
            let more = match split_list_field(entries, "more") {
                Ok(x) => x,
                Err(e) => return Err(e),
            };
            Ok(SplitDefinition { name, note, address, value, kind, next, more })
        },
        _ => Err(ParseError::TypeMismatch(empty_path())),
    }
}

/// An optional list-of-splits field of an object.
fn split_list_field(entries: &Vec<(String, JsonValue)>, key: &str) -> (r: Result<
    Option<Vec<SplitDefinition>>,
    ParseError,
>)
    ensures
        (match r {
            Ok(x) => spec_split_list_opt(jv_entries(entries@), key@) == Ok::<
                Option<Seq<SplitDefinitionV>>,
                ErrV,
            >(opt_splits_view(x)),
            Err(e) => spec_split_list_opt(jv_entries(entries@), key@) == Err::<
                Option<Seq<SplitDefinitionV>>,
                ErrV,
            >(e@),
        }),
    decreases entries@,
{
    proof {
        lemma_jv_entries(entries@);
    }
    match find_field(entries, key) {
        None => Ok(None),
        Some(i) => {
            let x = &entries[i].1;
            match x {
                JsonValue::Array(items) => {
                    proof {
                        assert(decreases_to!(entries@ => entries@[i as int]));
                        assert(decreases_to!(entries@[i as int] => entries@[i as int].1));
                        assert(entries@[i as int].1 == *x);
                        assert(x->Array_0 == *items);
                        assert(decreases_to!(*x => x->Array_0));
                        assert(decreases_to!(*items => items@));
                    }
                    match parse_split_list(items) {
                        Ok(l) => Ok(Some(l)),
                        Err(e) => Err(e.prefixed(PathPart::Key(key.to_owned()))),
                    }
                },
                JsonValue::Null => Ok(None),
                _ => Err(ParseError::TypeMismatch(key_path(key))),
            }
        },
    }
}

/// A list of split definitions read in document order.
fn parse_split_list(items: &Vec<JsonValue>) -> (r: Result<Vec<SplitDefinition>, ParseError>)
    ensures
        (match r {
            Ok(l) => spec_parse_split_list(jv_seq(items@)) == Ok::<Seq<SplitDefinitionV>, ErrV>(
                split_seq_view(l@),
            ),
            Err(e) => spec_parse_split_list(jv_seq(items@)) == Err::<Seq<SplitDefinitionV>, ErrV>(
                e@,
            ),
        }),
    decreases items@,
{
    let ghost full = jv_seq(items@);
    proof {
        lemma_jv_seq(items@);
    }
    let mut out: Vec<SplitDefinition> = Vec::new();
    let mut idx: usize = 0;
    while idx < items.len()
        invariant
            idx <= items@.len(),
            full == jv_seq(items@),
            full.len() == items@.len(),
            forall|j: int| 0 <= j < items@.len() ==> full[j] == jv(items@[j]),
            out@.len() == idx,
            spec_parse_split_list(full.subrange(0, idx as int)) == Ok::<
                Seq<SplitDefinitionV>,
                ErrV,
            >(split_seq_view(out@)),
        decreases items@.len() - idx,
    {
        proof {
            assert(decreases_to!(items@ => items@[idx as int]));
        }
        match parse_split(&items[idx]) {
            Ok(s) => {
                let ghost out0 = out@;
                out.push(s);
                proof {
                    let prev = full.subrange(0, idx as int);
                    let cur = full.subrange(0, idx as int + 1);
                    assert(cur.drop_last() =~= prev);
                    assert(cur.last() == full[idx as int]);
                    assert(out@.drop_last() =~= out0);
                    assert(out@.last() == s);
                    assert(split_seq_view(out@) == split_seq_view(out0).push(split_view(s)));
                }
            },
            Err(e) => {
                proof {
                    lemma_split_list_err(full, idx as int);
                }
                return Err(e.prefixed(PathPart::At(idx)));
            },
        }
        idx += 1;
    }
    proof {
        assert(full.subrange(0, items@.len() as int) =~= full);
    }
    Ok(out)
}

/// An in-game-time block read from a document node.
fn parse_igt(v: &JsonValue) -> (r: Result<InGameTime, ParseError>)
    ensures
        res_view(r) == spec_parse_igt(jv(*v)),
{
    match v {
        JsonValue::Object(entries) => {
            let active = match req_str_field(entries, "active") {
                Ok(x) => x,
                Err(e) => return Err(e),
            };
            let frames_address = match req_str_field(entries, "framesAddress") {
                Ok(x) => x,
                Err(e) => return Err(e),
            };
            let seconds_address = match req_str_field(entries, "secondsAddress") {
                Ok(x) => x,
                Err(e) => return Err(e),
            };
            let minutes_address = match req_str_field(entries, "minutesAddress") {
                Ok(x) => x,
                Err(e) => return Err(e),
            };
            let hours_address = match req_str_field(entries, "hoursAddress") {
                Ok(x) => x,
                Err(e) => return Err(e),
            };
            Ok(
                InGameTime {
                    active,
                    frames_address,
                    seconds_address,
                    minutes_address,
                    hours_address,
                },
            )
        },
        _ => Err(ParseError::TypeMismatch(empty_path())),
    }
}

/// An autostart block read from a document node.
fn parse_autostart(v: &JsonValue) -> (r: Result<Autostart, ParseError>)
    ensures
        res_view(r) == spec_parse_autostart(jv(*v)),
{
    match v {
        JsonValue::Object(entries) => {
            let active = match req_str_field(entries, "active") {
                Ok(x) => x,
                Err(e) => return Err(e),
            };
            let address = match req_str_field(entries, "address") {
                Ok(x) => x,
                Err(e) => return Err(e),
            };
            let value = match req_str_field(entries, "value") {
                Ok(x) => x,
                Err(e) => return Err(e),
            };
            let tag = match req_str_field(entries, "type") {
                Ok(x) => x,
                Err(e) => return Err(e),
            };
            let kind = match comparison_of(tag.as_str()) {
                Some(k) => k,
                None => return Err(ParseError::UnrecognizedComparisonType(key_path("type"), tag)),
            };
            let next = match split_list_field(entries, "next") {
                Ok(x) => x,
                Err(e) => return Err(e),
            };
            let more = match split_list_field(entries, "more") {
                Ok(x) => x,
                Err(e) => return Err(e),
            };
            Ok(Autostart { active, address, value, kind, next, more })
        },
        _ => Err(ParseError::TypeMismatch(empty_path())),
    }
}

/// A whole configuration read from an already-parsed document value.
pub fn config_from_json(v: &JsonValue) -> (r: Result<Config, ParseError>)
    ensures
        res_view(r) == spec_parse_config(jv(*v)),
{
    match v {
        JsonValue::Object(entries) => {
            proof {
                lemma_jv_entries(entries@);
            }
            let ghost o = jv_entries(entries@);
            let name = match opt_str_field(entries, "name") {
                Ok(x) => x,
                Err(e) => return Err(e),
            };
            let autostart = match find_field(entries, "autostart") {
                None => None,
                Some(i) => {
                    proof {
                        assert(obj_get(o, "autostart"@) == jv(entries@[i as int].1));
                    }
                    match &entries[i].1 {
                        JsonValue::Null => None,
                        x => match parse_autostart(x) {
                            Ok(a) => Some(a),
                            Err(e) => return Err(
                                e.prefixed(PathPart::Key("autostart".to_owned())),
                            ),
                        },
                    }
                },
            };
            let igt = match find_field(entries, "igt") {
                None => None,
                Some(i) => {
                    proof {
                        assert(obj_get(o, "igt"@) == jv(entries@[i as int].1));
                    }
                    match &entries[i].1 {
                        JsonValue::Null => None,
                        x => match parse_igt(x) {
                            Ok(t) => Some(t),
                            Err(e) => return Err(e.prefixed(PathPart::Key("igt".to_owned()))),
                        },
                    }
                },
            };
            let alias = match find_field(entries, "alias") {
                None => {
                    proof {
                        assert(jv_entries(Seq::<(String, JsonValue)>::empty()) =~= Seq::<
                            (Seq<char>, Jv),
                        >::empty());
                    }
                    Vec::new()
                },
                Some(i) => {
                    proof {
                        assert(obj_get(o, "alias"@) == jv(entries@[i as int].1));
                    }
                    match &entries[i].1 {
                        JsonValue::Object(es) => clone_entries(es),
                        _ => return Err(ParseError::TypeMismatch(key_path("alias"))),
                    }
                },
            };
            let definitions = match find_field(entries, "definitions") {
                None => return Err(
                    ParseError::MissingField(empty_path(), "definitions".to_owned()),
                ),
                Some(i) => {
                    proof {
                        assert(obj_get(o, "definitions"@) == jv(entries@[i as int].1));
                    }
                    match &entries[i].1 {
                        JsonValue::Array(items) => match parse_split_list(items) {
                            Ok(l) => l,
                            Err(e) => return Err(
                                e.prefixed(PathPart::Key("definitions".to_owned())),
                            ),
                        },
                        _ => return Err(ParseError::TypeMismatch(key_path("definitions"))),
                    }
                },
            };
            Ok(Config { name, autostart, igt, alias, definitions })
        },
        _ => Err(ParseError::TypeMismatch(empty_path())),
    }
}

/// Parse the text of a splitter file into a configuration.
///
/// A text that is not well-formed JSON is rejected as a malformed document;
/// a well-formed one is read exactly as `spec_parse_config` says.
pub fn parse(text: &str) -> (r: Result<Config, ParseError>)
    ensures
        (match json_doc_of(text@) {
            Some(j) => res_view(r) == spec_parse_config(j),
            None => (match r {
                Err(e) => e@ is MalformedDocument,
                Ok(_) => false,
            }),
        }),
{
    match parse_json_text(text) {
        Ok(v) => config_from_json(&v),
        Err(m) => Err(ParseError::MalformedDocument(m)),
    }
}

} // verus!
