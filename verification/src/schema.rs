//! Schemas — the compiled form of a record or union description — and the
//! structured values their parsers produce.

use vstd::prelude::*;

use crate::attributes::{names_view, spec_pass_marker_test, FieldAttributes, RootAttributes};
use crate::location::ItemLocation;
use crate::markers::MarkerSeq;

verus! {

/// A compiled schema: the description a parse attempt interprets.
pub enum Schema {
    /// A fixed literal token; its value is the token itself.
    Token(String),
    /// A pattern; its value is the matched text.
    Pattern(String),
    /// An ordered record of fields, attempted sequentially.
    Record(RecordSchema),
    /// A tagged union of variants, attempted in declaration order with
    /// first-match-wins alternation.
    Union(UnionSchema),
}

/// The schema of a record: its fields in declaration order, under the root
/// directives.
pub struct RecordSchema {
    /// The name of the record type, the default item name in diagnostics.
    pub item_name: String,
    pub attributes: RootAttributes,
    pub fields: Vec<FieldSchema>,
}

/// One field of a record schema.
pub struct FieldSchema {
    /// The field's name.
    pub name: String,
    pub attributes: FieldAttributes,
    pub shape: FieldShape,
}

/// How a field's own value is read, once its literal or pattern directives
/// (which take precedence) are absent.
pub enum FieldShape {
    /// The value is textual: the field's `value` or `regex` directive reads
    /// it.
    Text,
    /// A nested structured parse.
    Item(Box<Schema>),
    /// An optional nested parse: absence is a value, not a failure.
    OptionItem(Box<Schema>),
    /// A repeated nested parse, possibly with a separator.
    VecItem(Box<Schema>),
}

/// The schema of a union: its variants in declaration order.
pub struct UnionSchema {
    /// The name of the union type, the default item name in diagnostics.
    pub item_name: String,
    pub attributes: RootAttributes,
    pub variants: Vec<VariantSchema>,
}

/// One variant of a union schema.
pub struct VariantSchema {
    /// The variant's name.
    pub name: String,
    pub attributes: FieldAttributes,
    /// The literal token that recognizes a unit variant, doubles as its
    /// display string, and joins the completion suggestions. A unit variant
    /// without a token is unreachable at parse time.
    pub token: Option<String>,
    /// The schemas of the variant's payload fields, in order; empty for a
    /// unit variant.
    pub fields: Vec<Schema>,
}

/// A structured value produced by a parse.
#[derive(Debug, PartialEq, Eq)]
pub enum Value {
    /// The default a field takes when its nested parse was skipped or
    /// defaulted.
    Missing,
    /// Text read by a literal or pattern directive.
    Text(String),
    /// The value of an optional nested parse.
    Maybe(Option<Box<Value>>),
    /// The items of a repeated field.
    List(Vec<Value>),
    /// A parsed record.
    Record(RecordValue),
    /// A parsed union: the index of the matched variant and its payload
    /// values.
    Variant(usize, Vec<Value>),
}

/// A parsed record's field values, with the consumed span when the schema
/// requests location capture.
#[derive(Debug, PartialEq, Eq)]
pub struct RecordValue {
    pub fields: Vec<Value>,
    pub location: Option<ItemLocation>,
}

/// Whether a field's or variant's marker test passes against the current
/// marker table: every `ignore_if_marker` reads `false`, every
/// `ignore_if_not_marker` reads `true`.
pub open spec fn attrs_pass(attrs: FieldAttributes, m: MarkerSeq) -> bool {
    spec_pass_marker_test(
        m,
        names_view(attrs.ignore_if_marker@),
        names_view(attrs.ignore_if_not_marker@),
    )
}

/// Whether a field's directives hold no marker overrides.
pub open spec fn attrs_no_overrides(attrs: FieldAttributes) -> bool {
    attrs.set_markers@.len() == 0 && attrs.unset_markers@.len() == 0
}

/// Whether the root directives hold no marker overrides.
pub open spec fn root_no_overrides(attrs: RootAttributes) -> bool {
    attrs.set_markers@.len() == 0 && attrs.unset_markers@.len() == 0
}

/// No directive anywhere in the schema tree overrides a marker. Declared
/// markers are allowed: they are retracted by the attempt that declared them,
/// so such a schema leaves the marker table exactly as it found it.
pub open spec fn schema_no_overrides(s: Schema) -> bool
    decreases s,
{
    match s {
        Schema::Token(_) => true,
        Schema::Pattern(_) => true,
        Schema::Record(rs) => record_no_overrides(rs),
        Schema::Union(us) => union_no_overrides(us),
    }
}

/// No directive of this record or below it overrides a marker.
pub open spec fn record_no_overrides(rs: RecordSchema) -> bool
    decreases rs,
{
    root_no_overrides(rs.attributes) && (forall|i: int|
        0 <= i < rs.fields@.len() ==> field_no_overrides(#[trigger] rs.fields@[i]))
}

/// No directive of any variant of this union overrides a marker.
pub open spec fn union_no_overrides(us: UnionSchema) -> bool
    decreases us,
{
    forall|i: int|
        0 <= i < us.variants@.len() ==> variant_no_overrides(#[trigger] us.variants@[i])
}

/// No directive of this field or below it overrides a marker.
pub open spec fn field_no_overrides(f: FieldSchema) -> bool
    decreases f,
{
    attrs_no_overrides(f.attributes) && match f.shape {
        FieldShape::Text => true,
        FieldShape::Item(c) => schema_no_overrides(*c),
        FieldShape::OptionItem(c) => schema_no_overrides(*c),
        FieldShape::VecItem(c) => schema_no_overrides(*c),
    }
}

/// No directive of this variant or below it overrides a marker.
pub open spec fn variant_no_overrides(v: VariantSchema) -> bool
    decreases v,
{
    attrs_no_overrides(v.attributes) && (forall|i: int|
        0 <= i < v.fields@.len() ==> schema_no_overrides(#[trigger] v.fields@[i]))
}

/// Every variant of the union is unit-shaped (no payload fields).
pub open spec fn all_unit_variants(us: UnionSchema) -> bool {
    forall|i: int| 0 <= i < us.variants@.len() ==> (#[trigger] us.variants@[i]).fields@.len() == 0
}

/// Whether variant `k` of a union of unit variants is recognized at `index`:
/// its marker test passes against the marker table `m` and its literal token
/// occurs at the cursor.
pub open spec fn unit_variant_matches(
    us: UnionSchema,
    k: int,
    input: Seq<char>,
    index: int,
    m: MarkerSeq,
) -> bool {
    &&& 0 <= k < us.variants@.len()
    &&& us.variants@[k].token matches Some(t) && crate::reader::spec_starts_with(
        input,
        index,
        t@,
    )
    &&& attrs_pass(us.variants@[k].attributes, m)
}

/// Whether a field's value is read textually, by its literal or pattern
/// directive (these take precedence over the field's shape).
pub open spec fn field_reads_text(f: FieldSchema) -> bool {
    f.attributes.regex is Some || f.attributes.value is Some
}

/// A field whose marker effects are overrides alone: it declares no markers
/// and reads its value textually, so no nested attempt runs under it.
pub open spec fn field_overrides_only(f: FieldSchema) -> bool {
    &&& f.attributes.declared_markers@.len() == 0
    &&& (field_reads_text(f) || f.shape is Text)
}

/// A record whose marker effects are overrides alone: neither the root nor
/// any field declares a marker, and no field runs a nested attempt. Every
/// marker change such a record makes during a failed attempt is an override
/// recorded in its own log, so failure restores the table exactly.
pub open spec fn record_overrides_only(rs: RecordSchema) -> bool {
    &&& rs.attributes.declared_markers@.len() == 0
    &&& forall|i: int| 0 <= i < rs.fields@.len() ==> field_overrides_only(#[trigger] rs.fields@[i])
}


/// The default a field takes when it is skipped, ignored, or fails while
/// optional.
pub open spec fn is_default_of(f: FieldSchema, v: Value) -> bool {
    if field_reads_text(f) {
        v matches Value::Text(t) && t@.len() == 0
    } else {
        match f.shape {
            FieldShape::Text => v matches Value::Text(t) && t@.len() == 0,
            FieldShape::Item(_) => v is Missing,
            FieldShape::OptionItem(_) => v matches Value::Maybe(o) && o is None,
            FieldShape::VecItem(_) => v matches Value::List(l) && l@.len() == 0,
        }
    }
}

/// Structural well-formedness of a value against its schema.
pub open spec fn value_wf(s: Schema, v: Value) -> bool
    decreases s,
{
    match s {
        Schema::Token(_) => v is Text,
        Schema::Pattern(_) => v is Text,
        Schema::Record(rs) => v matches Value::Record(rv) && {
            &&& rv.fields@.len() == rs.fields@.len()
            &&& forall|i: int|
                0 <= i < rs.fields@.len() ==> field_value_wf(
                    #[trigger] rs.fields@[i],
                    rv.fields@[i],
                )
            &&& rs.attributes.located ==> rv.location is Some
        },
        Schema::Union(us) => v matches Value::Variant(k, vals) && {
            &&& 0 <= k < us.variants@.len()
            &&& vals@.len() == us.variants@[k as int].fields@.len()
            &&& forall|i: int|
                0 <= i < vals@.len() ==> value_wf(
                    #[trigger] us.variants@[k as int].fields@[i],
                    vals@[i],
                )
        },
    }
}

/// Structural well-formedness of one field's value.
pub open spec fn field_value_wf(f: FieldSchema, v: Value) -> bool
    decreases f,
{
    if field_reads_text(f) {
        v is Text
    } else {
        match f.shape {
            FieldShape::Text => v is Text,
            FieldShape::Item(c) => value_wf(*c, v) || v is Missing,
            FieldShape::OptionItem(c) => v matches Value::Maybe(o) && match o {
                Some(inner) => value_wf(*c, *inner),
                None => true,
            },
            FieldShape::VecItem(c) => v matches Value::List(items) && forall|i: int|
                0 <= i < items@.len() ==> value_wf(*c, #[trigger] items@[i]),
        }
    }
}

impl FieldSchema {
    /// A field with the given shape and everything else at its default.
    pub fn plain(name: &str, shape: FieldShape) -> (r: FieldSchema)
        ensures
            r.name@ == name@,
            r.shape == shape,
            r.attributes.value is None,
            r.attributes.regex is None,
            r.attributes.prefix is None,
            r.attributes.suffix is None,
            r.attributes.min is None,
            r.attributes.separator is None,
            r.attributes.optional is None,
            r.attributes.cascade is None,
            r.attributes.exclude is None,
            r.attributes.followed_by is None,
            r.attributes.not_followed_by is None,
            r.attributes.declared_markers@.len() == 0,
            r.attributes.set_markers@.len() == 0,
            r.attributes.unset_markers@.len() == 0,
            r.attributes.ignore_if_marker@.len() == 0,
            r.attributes.ignore_if_not_marker@.len() == 0,
            !r.attributes.ignore,
    {
        FieldSchema { name: name.to_owned(), attributes: FieldAttributes::new(), shape }
    }

    /// Builds the field's default value.
    pub fn default_value(&self) -> (r: Value)
        ensures
            is_default_of(*self, r),
    {
        if self.attributes.regex.is_some() || self.attributes.value.is_some() {
            return Value::Text(String::new());
        }
        match &self.shape {
            FieldShape::Text => Value::Text(String::new()),
            FieldShape::Item(_) => Value::Missing,
            FieldShape::OptionItem(_) => Value::Maybe(None),
            FieldShape::VecItem(_) => Value::List(Vec::new()),
        }
    }
}

/// A string wrapped in quotation marks, as literal tokens appear in
/// diagnostics.
pub open spec fn quoted(t: Seq<char>) -> Seq<char> {
    seq!['"'] + t + seq!['"']
}

/// The item name a record reports in diagnostics: its explicit name if one was
/// given, else its literal token in quotes, else its type name.
pub open spec fn spec_record_item_name(rs: RecordSchema) -> Seq<char> {
    match rs.attributes.name {
        Some(n) => n@,
        None => match rs.attributes.token {
            Some(t) => quoted(t@),
            None => rs.item_name@,
        },
    }
}

/// The item name a union reports in diagnostics.
pub open spec fn spec_union_item_name(us: UnionSchema) -> Seq<char> {
    match us.attributes.name {
        Some(n) => n@,
        None => match us.attributes.token {
            Some(t) => quoted(t@),
            None => us.item_name@,
        },
    }
}

/// The item name any schema reports in diagnostics.
pub open spec fn spec_item_name(s: Schema) -> Seq<char> {
    match s {
        Schema::Token(lit) => quoted(lit@),
        Schema::Pattern(p) => p@,
        Schema::Record(rs) => spec_record_item_name(rs),
        Schema::Union(us) => spec_union_item_name(us),
    }
}

/// The completion suggestions contributed by the first `i` variants: the
/// literal tokens of the unit variants among them, in declaration order.
pub open spec fn spec_suggestions(vs: Seq<VariantSchema>, i: int) -> Seq<Seq<char>>
    decreases i,
{
    if i <= 0 {
        Seq::empty()
    } else {
        spec_suggestions(vs, i - 1) + match vs[i - 1].token {
            Some(t) => if vs[i - 1].fields@.len() == 0 {
                seq![t@]
            } else {
                Seq::empty()
            },
            None => Seq::empty(),
        }
    }
}

/// The display label a union renders for a parsed value: the literal token of
/// the matched unit variant, or empty for anything else.
pub open spec fn spec_value_label(us: UnionSchema, v: Value) -> Seq<char> {
    match v {
        Value::Variant(k, vals) => if vals@.len() == 0 {
            spec_label(us, k as int)
        } else {
            Seq::empty()
        },
        _ => Seq::empty(),
    }
}

/// The display label of a union value: the literal token of the matched unit
/// variant, or empty for anything else.
pub open spec fn spec_label(us: UnionSchema, k: int) -> Seq<char> {
    if 0 <= k < us.variants@.len() && us.variants@[k].fields@.len() == 0 {
        match us.variants@[k].token {
            Some(t) => t@,
            None => Seq::empty(),
        }
    } else {
        Seq::empty()
    }
}

/// The source location of a value: a record's captured span, or — for a union
/// value with exactly one payload field — that field's location. Other values
/// have no well-defined location.
pub open spec fn spec_location(v: Value) -> Option<ItemLocation>
    decreases v,
{
    match v {
        Value::Record(rv) => rv.location,
        Value::Variant(_, vals) => if vals@.len() == 1 {
            spec_location(vals@[0])
        } else {
            None
        },
        _ => None,
    }
}

/// Wraps a string in quotation marks.
pub(crate) fn quote_string(s: &str) -> (r: String)
    ensures
        r@ == quoted(s@),
{
    proof {
        reveal_strlit("\"");
    }
    let r = "\"".to_owned().concat(s).concat("\"");
    proof {
        assert(r@ =~= quoted(s@));
    }
    r
}

impl RecordSchema {
    /// Builds a record schema. A record of exactly one field, read by a fixed
    /// literal, takes that literal as its token when none was given, so the
    /// quoted literal stands for the whole item in diagnostics.
    pub fn new(item_name: &str, attributes: RootAttributes, fields: Vec<FieldSchema>) -> (rs:
        RecordSchema)
        ensures
            rs.item_name@ == item_name@,
            rs.fields == fields,
            rs.attributes == (RootAttributes { token: rs.attributes.token, ..attributes }),
            (attributes.token is Some || fields@.len() != 1 || fields@[0].attributes.value
                is None) ==> rs.attributes.token == attributes.token,
            (attributes.token is None && fields@.len() == 1) ==> (match fields@[0].attributes.value {
                Some(lit) => rs.attributes.token matches Some(t) && t@ == lit@,
                None => rs.attributes.token is None,
            }),
    {
        let mut attributes = attributes;
        if attributes.token.is_none() && fields.len() == 1 {
            if let Some(lit) = &fields[0].attributes.value {
                attributes.token = Some(lit.clone());
            }
        }
        RecordSchema { item_name: item_name.to_owned(), attributes, fields }
    }

    /// The name this record reports in diagnostics: the explicit `name`
    /// directive, else the literal token in quotes, else the type name.
    pub fn get_item_name(&self) -> (r: String)
        ensures
            r@ == spec_record_item_name(*self),
    {
        match &self.attributes.name {
            Some(n) => n.clone(),
            None => match &self.attributes.token {
                Some(t) => quote_string(t.as_str()),
                None => self.item_name.clone(),
            },
        }
    }
}

impl UnionSchema {
    /// The name this union reports in diagnostics.
    pub fn get_item_name(&self) -> (r: String)
        ensures
            r@ == spec_union_item_name(*self),
    {
        match &self.attributes.name {
            Some(n) => n.clone(),
            None => match &self.attributes.token {
                Some(t) => quote_string(t.as_str()),
                None => self.item_name.clone(),
            },
        }
    }

    /// The literal tokens usable for autocompletion: those of the unit
    /// variants, in declaration order.
    #[verifier::loop_isolation(false)]
    pub fn get_completion_suggestions(&self) -> (r: Vec<String>)
        ensures
            names_view(r@) == spec_suggestions(self.variants@, self.variants@.len() as int),
    {
        let mut r: Vec<String> = Vec::new();
        let mut k: usize = 0;
        while k < self.variants.len()
            invariant
                0 <= k <= self.variants@.len(),
                names_view(r@) == spec_suggestions(self.variants@, k as int),
            decreases self.variants@.len() - k,
        {
            let ghost before = names_view(r@);
            if self.variants[k].fields.len() == 0 {
                if let Some(t) = &self.variants[k].token {
                    r.push(t.clone());
                    proof {
                        assert(names_view(r@) =~= before + seq![t@]);
                    }
                }
            }
            proof {
                assert(names_view(r@) =~= spec_suggestions(self.variants@, k + 1));
            }
            k += 1;
        }
        r
    }

    /// The display label of a parsed union value: the matched unit variant's
    /// literal token, or the empty string for a value this union cannot label.
    pub fn as_str(&self, v: &Value) -> (r: String)
        ensures
            r@ == spec_value_label(*self, *v),
    {
        match v {
            Value::Variant(k, vals) => {
                if *k < self.variants.len() && vals.len() == 0 && self.variants[*k].fields.len()
                    == 0 {
                    match &self.variants[*k].token {
                        Some(t) => t.clone(),
                        None => String::new(),
                    }
                } else {
                    String::new()
                }
            },
            _ => String::new(),
        }
    }
}

impl Value {
    /// The source location of this value, where one is well defined: records
    /// carry their captured span, and a union value with exactly one payload
    /// field borrows that field's location.
    pub fn location(&self) -> (r: Option<ItemLocation>)
        ensures
            r == spec_location(*self),
        decreases self,
    {
        match self {
            Value::Record(rv) => rv.location,
            Value::Variant(_, vals) => {
                if vals.len() == 1 {
                    vals[0].location()
                } else {
                    None
                }
            },
            _ => None,
        }
    }
}

/// Round trip for literal-driven unions: when variant `k` is recognized at
/// `start`, the consumed literal characters are exactly the variant's token —
/// which is also the display label `as_str` renders for the parsed value. A
/// record parsed from text therefore reproduces the original literal when
/// re-rendered through its label accessor.
pub proof fn lemma_unit_round_trip(
    us: UnionSchema,
    input: Seq<char>,
    start: int,
    m: MarkerSeq,
    k: int,
)
    requires
        all_unit_variants(us),
        unit_variant_matches(us, k, input, start, m),
    ensures
        us.variants@[k].token matches Some(t) && spec_label(us, k) == t@ && input.subrange(
            start,
            start + t@.len(),
        ) == t@,
{
    let t = us.variants@[k].token->0;
    assert(input.subrange(start, start + t@.len()) =~= t@);
}

/// Structural validity of one field's directives: exactly one of the literal
/// directive, the pattern directive, or a nested shape determines how its
/// value is read; a minimum count is only meaningful for textual or repeated
/// fields; a separator only for repeated fields.
pub open spec fn field_schema_valid(f: FieldSchema) -> bool
    decreases f,
{
    &&& (f.attributes.min is Some ==> (field_reads_text(f) || f.shape is VecItem))
    &&& (f.attributes.separator is Some ==> f.shape is VecItem)
    &&& match f.shape {
        FieldShape::Text => (f.attributes.value is Some || f.attributes.regex is Some) && !(
        f.attributes.value is Some && f.attributes.regex is Some),
        FieldShape::Item(c) => !field_reads_text(f) && schema_valid(*c),
        FieldShape::OptionItem(c) => !field_reads_text(f) && schema_valid(*c),
        FieldShape::VecItem(c) => !field_reads_text(f) && schema_valid(*c),
    }
}

/// Structural validity of one variant: a unit variant carries the literal
/// token that recognizes it (without one it would be unreachable at parse
/// time), its payload schemas are valid, and it carries no separator (a
/// separator belongs to a repeated field; on a variant it would silently do
/// nothing — express repetition through a nested record field instead).
pub open spec fn variant_schema_valid(v: VariantSchema) -> bool
    decreases v,
{
    &&& (v.fields@.len() == 0 ==> v.token is Some)
    &&& v.attributes.separator is None
    &&& (forall|i: int| 0 <= i < v.fields@.len() ==> schema_valid(#[trigger] v.fields@[i]))
}

/// Structural validity of a whole schema tree. Malformed directive
/// combinations are detected here, once, rather than surfacing per parse.
pub open spec fn schema_valid(s: Schema) -> bool
    decreases s,
{
    match s {
        Schema::Token(_) => true,
        Schema::Pattern(_) => true,
        Schema::Record(rs) => forall|i: int|
            0 <= i < rs.fields@.len() ==> field_schema_valid(#[trigger] rs.fields@[i]),
        Schema::Union(us) => forall|i: int|
            0 <= i < us.variants@.len() ==> variant_schema_valid(#[trigger] us.variants@[i]),
    }
}

impl FieldSchema {
    /// Checks this field's directives for malformed combinations.
    pub fn validate(&self) -> (b: bool)
        ensures
            b == field_schema_valid(*self),
        decreases self,
    {
        let reads_text = self.attributes.value.is_some() || self.attributes.regex.is_some();
        let is_vec = matches!(self.shape, FieldShape::VecItem(_));
        if self.attributes.min.is_some() && !(reads_text || is_vec) {
            return false;
        }
        if self.attributes.separator.is_some() && !is_vec {
            return false;
        }
        match &self.shape {
            FieldShape::Text => (self.attributes.value.is_some()
                || self.attributes.regex.is_some()) && !(self.attributes.value.is_some()
                && self.attributes.regex.is_some()),
            FieldShape::Item(c) => !reads_text && c.validate(),
            FieldShape::OptionItem(c) => !reads_text && c.validate(),
            FieldShape::VecItem(c) => !reads_text && c.validate(),
        }
    }
}

impl VariantSchema {
    /// Checks this variant for malformed combinations.
    #[verifier::loop_isolation(false)]
    pub fn validate(&self) -> (b: bool)
        ensures
            b == variant_schema_valid(*self),
        decreases self,
    {
        if self.fields.len() == 0 && self.token.is_none() {
            return false;
        }
        if self.attributes.separator.is_some() {
            return false;
        }
        let mut i: usize = 0;
        while i < self.fields.len()
            invariant
                0 <= i <= self.fields@.len(),
                forall|j: int| 0 <= j < i ==> schema_valid(#[trigger] self.fields@[j]),
            decreases self.fields@.len() - i,
        {
            if !self.fields[i].validate() {
                return false;
            }
            i += 1;
        }
        true
    }
}

impl Schema {
    /// Checks the whole schema tree for malformed directive combinations,
    /// once, when the schema is built: a schema that fails this check is
    /// rejected rather than parsed with.
    #[verifier::loop_isolation(false)]
    pub fn validate(&self) -> (b: bool)
        ensures
            b == schema_valid(*self),
        decreases self,
    {
        match self {
            Schema::Token(_) => true,
            Schema::Pattern(_) => true,
            Schema::Record(rs) => {
                let mut i: usize = 0;
                while i < rs.fields.len()
                    invariant
                        0 <= i <= rs.fields@.len(),
                        forall|j: int| 0 <= j < i ==> field_schema_valid(#[trigger] rs.fields@[j]),
                    decreases rs.fields@.len() - i,
                {
                    if !rs.fields[i].validate() {
                        return false;
                    }
                    i += 1;
                }
                true
            },
            Schema::Union(us) => {
                let mut i: usize = 0;
                while i < us.variants.len()
                    invariant
                        0 <= i <= us.variants@.len(),
                        forall|j: int|
                            0 <= j < i ==> variant_schema_valid(#[trigger] us.variants@[j]),
                    decreases us.variants@.len() - i,
                {
                    if !us.variants[i].validate() {
                        return false;
                    }
                    i += 1;
                }
                true
            },
        }
    }
}

} // verus!
