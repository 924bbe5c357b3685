//! Normalized parsing directives for one field, one union variant, or the root
//! of a schema.

use vstd::prelude::*;

use crate::markers::{marker_get, MarkerSeq};

verus! {

/// The parsing directives of one field of a record, or of one variant of a
/// union. Every directive is optional; an absent directive means the default
/// behaviour.
pub struct FieldAttributes {
    /// A fixed literal token that is the field's whole value.
    pub value: Option<String>,
    /// A pattern whose match at the cursor is the field's value.
    pub regex: Option<String>,
    /// A literal consumed before the field's own value.
    pub prefix: Option<String>,
    /// A literal consumed after the field's own value.
    pub suffix: Option<String>,
    /// The least number of items (repeated field) or characters (textual
    /// field) the parsed value must hold.
    pub min: Option<usize>,
    /// The literal separating the items of a repeated field.
    pub separator: Option<String>,
    /// Whether the field may fail and take its default value instead of
    /// aborting the whole record.
    pub optional: Option<bool>,
    /// Whether an optional field's failure is propagated to later cascading
    /// fields of the same record (resolved against the root's cascade switch).
    pub cascade: Option<bool>,
    /// Whether whitespace is skipped after the field's value.
    pub consume_spaces: Option<bool>,
    /// Whether whitespace is skipped after the prefix literal.
    pub consume_spaces_after_prefix: Option<bool>,
    /// Whether whitespace is skipped after the suffix literal.
    pub consume_spaces_after_suffix: Option<bool>,
    /// Whether whitespace is skipped between the items of a repeated field.
    pub consume_spaces_between_items: Option<bool>,
    /// A pattern that must not match at the cursor for the field to be
    /// attempted (negative lookahead before the read).
    pub exclude: Option<String>,
    /// A pattern that must match just past the field (lookahead, not
    /// consumed).
    pub followed_by: Option<String>,
    /// A pattern that must not match just past the field (lookahead, not
    /// consumed); its failure records no expectation.
    pub not_followed_by: Option<String>,
    /// Markers declared for the duration of this field's own attempt.
    pub declared_markers: Vec<String>,
    /// Markers overridden to `true` for the duration of the enclosing attempt.
    pub set_markers: Vec<String>,
    /// Markers overridden to `false` for the duration of the enclosing
    /// attempt.
    pub unset_markers: Vec<String>,
    /// The field is skipped (treated as ignored) when any of these markers
    /// currently reads `true`.
    pub ignore_if_marker: Vec<String>,
    /// The field is skipped when any of these markers currently reads `false`.
    pub ignore_if_not_marker: Vec<String>,
    /// The field takes its default value and consumes nothing, always.
    pub ignore: bool,
}

impl FieldAttributes {
    /// Directives that leave everything at its default behaviour.
    pub fn new() -> (r: FieldAttributes)
        ensures
            r.value is None,
            r.regex is None,
            r.prefix is None,
            r.suffix is None,
            r.min is None,
            r.separator is None,
            r.optional is None,
            r.cascade is None,
            r.consume_spaces is None,
            r.consume_spaces_after_prefix is None,
            r.consume_spaces_after_suffix is None,
            r.consume_spaces_between_items is None,
            r.exclude is None,
            r.followed_by is None,
            r.not_followed_by is None,
            r.declared_markers@.len() == 0,
            r.set_markers@.len() == 0,
            r.unset_markers@.len() == 0,
            r.ignore_if_marker@.len() == 0,
            r.ignore_if_not_marker@.len() == 0,
            !r.ignore,
    {
        FieldAttributes {
            value: None,
            regex: None,
            prefix: None,
            suffix: None,
            min: None,
            separator: None,
            optional: None,
            cascade: None,
            consume_spaces: None,
            consume_spaces_after_prefix: None,
            consume_spaces_after_suffix: None,
            consume_spaces_between_items: None,
            exclude: None,
            followed_by: None,
            not_followed_by: None,
            declared_markers: Vec::new(),
            set_markers: Vec::new(),
            unset_markers: Vec::new(),
            ignore_if_marker: Vec::new(),
            ignore_if_not_marker: Vec::new(),
            ignore: false,
        }
    }
}

impl Default for FieldAttributes {
    fn default() -> (r: FieldAttributes)
        ensures
            r.value is None,
            r.regex is None,
            r.prefix is None,
            r.suffix is None,
            r.min is None,
            r.separator is None,
            r.optional is None,
            r.cascade is None,
            r.consume_spaces is None,
            r.consume_spaces_after_prefix is None,
            r.consume_spaces_after_suffix is None,
            r.consume_spaces_between_items is None,
            r.exclude is None,
            r.followed_by is None,
            r.not_followed_by is None,
            r.declared_markers@.len() == 0,
            r.set_markers@.len() == 0,
            r.unset_markers@.len() == 0,
            r.ignore_if_marker@.len() == 0,
            r.ignore_if_not_marker@.len() == 0,
            !r.ignore,
    {
        FieldAttributes::new()
    }
}

/// The directives scoped to a whole schema rather than to one field.
pub struct RootAttributes {
    /// Whether a successfully parsed record captures the span it consumed.
    pub located: bool,
    /// Whether a union's literal tokens double as its display strings.
    pub impl_display: bool,
    /// Whether optional-field failures cascade to later fields of the record.
    pub cascade: bool,
    /// An explicit item name for diagnostics.
    pub name: Option<String>,
    /// The literal token that stands for the whole item in diagnostics.
    pub token: Option<String>,
    /// Markers declared for the duration of the record's attempt.
    pub declared_markers: Vec<String>,
    /// Markers overridden to `true` for the duration of the enclosing attempt.
    pub set_markers: Vec<String>,
    /// Markers overridden to `false` for the duration of the enclosing
    /// attempt.
    pub unset_markers: Vec<String>,
    /// The schema is skipped when any of these markers reads `true`.
    pub ignore_if_marker: Vec<String>,
    /// The schema is skipped when any of these markers reads `false`.
    pub ignore_if_not_marker: Vec<String>,
}

impl RootAttributes {
    /// Root directives at their default: location capture on, everything else
    /// off.
    pub fn new() -> (r: RootAttributes)
        ensures
            r.located,
            !r.impl_display,
            !r.cascade,
            r.name is None,
            r.token is None,
            r.declared_markers@.len() == 0,
            r.set_markers@.len() == 0,
            r.unset_markers@.len() == 0,
            r.ignore_if_marker@.len() == 0,
            r.ignore_if_not_marker@.len() == 0,
    {
        RootAttributes {
            located: true,
            impl_display: false,
            cascade: false,
            name: None,
            token: None,
            declared_markers: Vec::new(),
            set_markers: Vec::new(),
            unset_markers: Vec::new(),
            ignore_if_marker: Vec::new(),
            ignore_if_not_marker: Vec::new(),
        }
    }
}

impl Default for RootAttributes {
    fn default() -> (r: RootAttributes)
        ensures
            r.located,
            !r.impl_display,
            !r.cascade,
            r.name is None,
            r.token is None,
            r.declared_markers@.len() == 0,
            r.set_markers@.len() == 0,
            r.unset_markers@.len() == 0,
            r.ignore_if_marker@.len() == 0,
            r.ignore_if_not_marker@.len() == 0,
    {
        RootAttributes::new()
    }
}

/// The views of a list of marker names.
pub open spec fn names_view(v: Seq<String>) -> Seq<Seq<char>> {
    v.map(|i: int, s: String| s@)
}

/// The marker test a field must pass to be attempted at all: every
/// `ignore_if_marker` name must currently read `false` and every
/// `ignore_if_not_marker` name must currently read `true`.
pub open spec fn spec_pass_marker_test(
    m: MarkerSeq,
    ignore_if: Seq<Seq<char>>,
    ignore_if_not: Seq<Seq<char>>,
) -> bool {
    (forall|j: int| 0 <= j < ignore_if.len() ==> !marker_get(m, ignore_if[j]))
        && (forall|j: int| 0 <= j < ignore_if_not.len() ==> marker_get(m, ignore_if_not[j]))
}

} // verus!
