use vstd::prelude::*;
use crate::error::{ErrV, PathPartV};
use crate::json::{obj_get, obj_has, Jv};
use crate::model::{AutostartV, ConfigV, InGameTimeV, SplitDefinitionV};
use crate::parse::{
    spec_comparison_of, spec_opt_str, spec_parse_autostart, spec_parse_config, spec_parse_igt,
    spec_parse_split, spec_parse_split_list, spec_req_str,
};

verus! {

/// Round trip of the field mapping for an in-game-time block: every field of
/// a successfully parsed block is, unchanged, the document's string at the
/// matching camelCase key.
pub proof fn lemma_igt_round_trip(o: Seq<(Seq<char>, Jv)>, t: InGameTimeV)
    requires
        spec_parse_igt(Jv::Object(o)) == Ok::<InGameTimeV, ErrV>(t),
    ensures
        obj_get(o, "active"@) == Jv::Text(t.active),
        obj_get(o, "framesAddress"@) == Jv::Text(t.frames_address),
        obj_get(o, "secondsAddress"@) == Jv::Text(t.seconds_address),
        obj_get(o, "minutesAddress"@) == Jv::Text(t.minutes_address),
        obj_get(o, "hoursAddress"@) == Jv::Text(t.hours_address),
{
}

/// Round trip of the field mapping for a split definition: every declared
/// field of a successfully parsed node is reachable unchanged under the
/// matching document key; an optional field is absent exactly when its key
/// is missing or null.
pub proof fn lemma_split_round_trip(o: Seq<(Seq<char>, Jv)>, s: SplitDefinitionV)
    requires
        spec_parse_split(Jv::Object(o)) == Ok::<SplitDefinitionV, ErrV>(s),
    ensures
        obj_get(o, "address"@) == Jv::Text(s.address),
        obj_get(o, "value"@) == Jv::Text(s.value),
        obj_has(o, "type"@),
        obj_get(o, "type"@) is Text,
        spec_comparison_of(obj_get(o, "type"@)->Text_0) == Some(s.kind),
        s.name is Some ==> obj_get(o, "name"@) == Jv::Text(s.name->0),
        s.name is None ==> !obj_has(o, "name"@) || obj_get(o, "name"@) is Null,
        s.note is Some ==> obj_get(o, "note"@) == Jv::Text(s.note->0),
        s.note is None ==> !obj_has(o, "note"@) || obj_get(o, "note"@) is Null,
        s.next is Some ==> obj_get(o, "next"@) is Array,
        s.next is None ==> !obj_has(o, "next"@) || obj_get(o, "next"@) is Null,
        s.more is Some ==> obj_get(o, "more"@) is Array,
        s.more is None ==> !obj_has(o, "more"@) || obj_get(o, "more"@) is Null,
{
}

/// Closed-set rejection: a split definition whose `type` tag lies outside
/// the twelve-tag comparison set is rejected as an unrecognized comparison
/// type at that tag, never read with a default kind — whatever else the
/// node holds.
pub proof fn lemma_unknown_tag_rejected(o: Seq<(Seq<char>, Jv)>, tag: Seq<char>)
    requires
        spec_opt_str(o, "name"@) is Ok,
        spec_opt_str(o, "note"@) is Ok,
        spec_req_str(o, "address"@) is Ok,
        spec_req_str(o, "value"@) is Ok,
        spec_req_str(o, "type"@) == Ok::<Seq<char>, ErrV>(tag),
        spec_comparison_of(tag) is None,
    ensures
        spec_parse_split(Jv::Object(o)) == Err::<SplitDefinitionV, ErrV>(
            ErrV::UnrecognizedComparisonType(seq![PathPartV::Key("type"@)], tag),
        ),
{
}

/// A successfully parsed list of split definitions has exactly one entry per
/// document element, each parsed from the element at its own position: the
/// document order is kept.
pub proof fn lemma_split_list_elements(items: Seq<Jv>, l: Seq<SplitDefinitionV>)
    requires
        spec_parse_split_list(items) == Ok::<Seq<SplitDefinitionV>, ErrV>(l),
    ensures
        l.len() == items.len(),
        forall|i: int|
            0 <= i < items.len() ==> spec_parse_split(items[i]) == Ok::<SplitDefinitionV, ErrV>(
                l[i],
            ),
    decreases items.len(),
{
    if items.len() > 0 {
        let pre = spec_parse_split_list(items.drop_last());
        lemma_split_list_elements(items.drop_last(), pre->Ok_0);
        assert forall|i: int|
            0 <= i < items.len() implies spec_parse_split(items[i]) == Ok::<
            SplitDefinitionV,
            ErrV,
        >(l[i]) by {
            if i < items.len() - 1 {
                assert(items.drop_last()[i] == items[i]);
            } else {
                assert(items.last() == items[i]);
            }
        }
    }
}

/// Defaulting of the optional root fields: a document whose root object
/// omits `alias` parses with an empty alias mapping, and one that omits
/// `igt`, `name` or `autostart` parses with that part absent — never with an
/// error.
pub proof fn lemma_config_defaults(o: Seq<(Seq<char>, Jv)>, c: ConfigV)
    requires
        spec_parse_config(Jv::Object(o)) == Ok::<ConfigV, ErrV>(c),
    ensures
        !obj_has(o, "alias"@) ==> c.alias == Seq::<(Seq<char>, Jv)>::empty(),
        !obj_has(o, "igt"@) ==> c.igt is None,
        !obj_has(o, "name"@) ==> c.name is None,
        !obj_has(o, "autostart"@) ==> c.autostart is None,
{
}

/// Round trip of the root mapping: every part of a successfully parsed
/// configuration comes unchanged from the value at its document key, and the
/// definitions list has one entry per document element.
pub proof fn lemma_config_round_trip(o: Seq<(Seq<char>, Jv)>, c: ConfigV)
    requires
        spec_parse_config(Jv::Object(o)) == Ok::<ConfigV, ErrV>(c),
    ensures
        c.name is Some ==> obj_get(o, "name"@) == Jv::Text(c.name->0),
        obj_has(o, "alias"@) ==> obj_get(o, "alias"@) == Jv::Object(c.alias),
        c.autostart is Some ==> spec_parse_autostart(obj_get(o, "autostart"@)) == Ok::<
            AutostartV,
            ErrV,
        >(c.autostart->0),
        c.igt is Some ==> spec_parse_igt(obj_get(o, "igt"@)) == Ok::<InGameTimeV, ErrV>(c.igt->0),
        obj_has(o, "definitions"@),
        obj_get(o, "definitions"@) is Array,
        spec_parse_split_list(obj_get(o, "definitions"@)->Array_0) == Ok::<
            Seq<SplitDefinitionV>,
            ErrV,
        >(c.definitions),
        c.definitions.len() == obj_get(o, "definitions"@)->Array_0.len(),
{
    lemma_split_list_elements(obj_get(o, "definitions"@)->Array_0, c.definitions);
}

} // verus!

