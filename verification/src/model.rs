use vstd::prelude::*;
use crate::json::{jv_entries, str_eq, JsonValue, Jv};

verus! {

/// The closed set of comparison semantics a split condition may use.
///
/// The `W`-prefixed variants are the windowed/delta counterparts of the
/// unprefixed ones.  At the document boundary each variant is spelled as its
/// lower-case tag, e.g. `"wbit"`, `"gte"`.
#[derive(Clone, Copy, Debug, PartialEq, Eq, Structural)]
pub enum ComparisonTypes {
    Bit,
    Eq,
    Gte,
    Gt,
    Lte,
    Lt,
    Wbit,
    Weq,
    Wgt,
    Wgte,
    Wlte,
    Wlt,
}

/// One node of the split tree: a condition on the value at a memory address,
/// with optional follow-up conditions (`next`) and additional steps (`more`).
///
/// The `kind` field binds to the document key `type`.
#[derive(Debug)]
pub struct SplitDefinition {
    pub name: Option<String>,
    pub note: Option<String>,
    pub address: String,
    pub value: String,
    pub kind: ComparisonTypes,
    pub next: Option<Vec<SplitDefinition>>,
    pub more: Option<Vec<SplitDefinition>>,
}

/// The model of a `SplitDefinition`.
pub struct SplitDefinitionV {
    pub name: Option<Seq<char>>,
    pub note: Option<Seq<char>>,
    pub address: Seq<char>,
    pub value: Seq<char>,
    pub kind: ComparisonTypes,
    pub next: Option<Seq<SplitDefinitionV>>,
    pub more: Option<Seq<SplitDefinitionV>>,
}

pub open spec fn split_view(s: SplitDefinition) -> SplitDefinitionV
    decreases s,
{
    SplitDefinitionV {
        name: match s.name {
            Some(n) => Some(n@),
            None => None,
        },
        note: match s.note {
            Some(n) => Some(n@),
            None => None,
        },
        address: s.address@,
        value: s.value@,
        kind: s.kind,
        next: match s.next {
            Some(l) => Some(split_seq_view(l@)),
            None => None,
        },
        more: match s.more {
            Some(l) => Some(split_seq_view(l@)),
            None => None,
        },
    }
}

pub open spec fn split_seq_view(s: Seq<SplitDefinition>) -> Seq<SplitDefinitionV>
    decreases s,
{
    if s.len() == 0 {
        Seq::empty()
    } else {
        split_seq_view(s.drop_last()).push(split_view(s.last()))
    }
}

impl View for SplitDefinition {
    type V = SplitDefinitionV;

    open spec fn view(&self) -> SplitDefinitionV {
        split_view(*self)
    }
}

/// The model of an optional string field.
pub open spec fn opt_str_view(o: Option<String>) -> Option<Seq<char>> {
    match o {
        Some(s) => Some(s@),
        None => None,
    }
}

/// The model of an optional list of split definitions.
pub open spec fn opt_splits_view(o: Option<Vec<SplitDefinition>>) -> Option<
    Seq<SplitDefinitionV>,
> {
    match o {
        Some(l) => Some(split_seq_view(l@)),
        None => None,
    }
}

impl SplitDefinition {
    /// A split definition built from its parts; the display name is always
    /// present here.
    pub fn new(
        name: String,
        note: Option<String>,
        address: String,
        value: String,
        kind: ComparisonTypes,
        next: Option<Vec<SplitDefinition>>,
        more: Option<Vec<SplitDefinition>>,
    ) -> (r: Self)
        ensures
            r@ == (SplitDefinitionV {
                name: Some(name@),
                note: opt_str_view(note),
                address: address@,
                value: value@,
                kind: kind,
                next: opt_splits_view(next),
                more: opt_splits_view(more),
            }),
    {
        Self { name: Some(name), note, address, value, kind, next, more }
    }
}

/// The single condition that must hold before the splitter begins operating.
///
/// The `kind` field binds to the document key `type` and is held to the
/// closed comparison set, as the split definitions are.
#[derive(Debug)]
pub struct Autostart {
    pub active: String,
    pub address: String,
    pub value: String,
    pub kind: ComparisonTypes,
    pub next: Option<Vec<SplitDefinition>>,
    pub more: Option<Vec<SplitDefinition>>,
}

/// The model of an `Autostart`.
pub struct AutostartV {
    pub active: Seq<char>,
    pub address: Seq<char>,
    pub value: Seq<char>,
    pub kind: ComparisonTypes,
    pub next: Option<Seq<SplitDefinitionV>>,
    pub more: Option<Seq<SplitDefinitionV>>,
}

impl View for Autostart {
    type V = AutostartV;

    open spec fn view(&self) -> AutostartV {
        AutostartV {
            active: self.active@,
            address: self.address@,
            value: self.value@,
            kind: self.kind,
            next: opt_splits_view(self.next),
            more: opt_splits_view(self.more),
        }
    }
}

impl Autostart {
    /// The autostart condition is turned on exactly when its flag is the
    /// literal string "1"; every other flag value means inactive.
    pub fn is_active(self) -> (r: bool)
        ensures
            r == (self.active@ == "1"@),
    {
        str_eq(self.active.as_str(), "1")
    }
}

/// The memory locations of the in-game timer's components.
#[derive(Debug)]
pub struct InGameTime {
    pub active: String,
    pub frames_address: String,
    pub seconds_address: String,
    pub minutes_address: String,
    pub hours_address: String,
}

/// The model of an `InGameTime`.
pub struct InGameTimeV {
    pub active: Seq<char>,
    pub frames_address: Seq<char>,
    pub seconds_address: Seq<char>,
    pub minutes_address: Seq<char>,
    pub hours_address: Seq<char>,
}

impl View for InGameTime {
    type V = InGameTimeV;

    open spec fn view(&self) -> InGameTimeV {
        InGameTimeV {
            active: self.active@,
            frames_address: self.frames_address@,
            seconds_address: self.seconds_address@,
            minutes_address: self.minutes_address@,
            hours_address: self.hours_address@,
        }
    }
}

impl InGameTime {
    /// An in-game-time block built from its five address strings.
    pub fn new(
        active: String,
        frames_address: String,
        seconds_address: String,
        minutes_address: String,
        hours_address: String,
    ) -> (r: Self)
        ensures
            r@ == (InGameTimeV {
                active: active@,
                frames_address: frames_address@,
                seconds_address: seconds_address@,
                minutes_address: minutes_address@,
                hours_address: hours_address@,
            }),
    {
        Self { active, frames_address, seconds_address, minutes_address, hours_address }
    }

    /// In-game timing is turned on exactly when its flag is the literal
    /// string "1"; every other flag value means inactive.
    pub fn is_active(self) -> (r: bool)
        ensures
            r == (self.active@ == "1"@),
    {
        str_eq(self.active.as_str(), "1")
    }
}

/// The root of a parsed splitter file.
#[derive(Debug)]
pub struct Config {
    pub name: Option<String>,
    pub autostart: Option<Autostart>,
    pub igt: Option<InGameTime>,
    pub alias: Vec<(String, JsonValue)>,
    pub definitions: Vec<SplitDefinition>,
}

/// The model of a `Config`.
pub struct ConfigV {
    pub name: Option<Seq<char>>,
    pub autostart: Option<AutostartV>,
    pub igt: Option<InGameTimeV>,
    pub alias: Seq<(Seq<char>, Jv)>,
    pub definitions: Seq<SplitDefinitionV>,
}

impl View for Config {
    type V = ConfigV;

    open spec fn view(&self) -> ConfigV {
        ConfigV {
            name: opt_str_view(self.name),
            autostart: match self.autostart {
                Some(a) => Some(a@),
                None => None,
            },
            igt: match self.igt {
                Some(t) => Some(t@),
                None => None,
            },
            alias: jv_entries(self.alias@),
            definitions: split_seq_view(self.definitions@),
        }
    }
}

} // verus!
