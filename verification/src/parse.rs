//! The schema interpreter: one parse attempt over the cursor, with marker
//! scoping, optional-field cascading, repetition, full backtracking on
//! failure, and expectation recording.

use vstd::prelude::*;

use crate::attributes::{names_view, FieldAttributes};
use crate::location::ItemLocation;
use crate::markers::{lemma_marker_override_roundtrip, marker_restore, marker_set, MarkerSeq};
use crate::pattern::pattern_prefix_len;
use crate::reader::{spec_skip_spaces, spec_starts_with, Reader};
use crate::schema::{
    all_unit_variants, attrs_pass, field_no_overrides, field_reads_text, field_value_wf,
    field_overrides_only, is_default_of, record_no_overrides, record_overrides_only,
    schema_no_overrides, union_no_overrides,
    unit_variant_matches, value_wf, variant_no_overrides, FieldSchema, FieldShape, RecordSchema,
    RecordValue, Schema, UnionSchema, Value,
};

verus! {

/// One marker override made during an attempt: the name and the previous
/// value to reinstate if the attempt fails.
pub struct OverrideEntry {
    pub name: String,
    pub prev: Option<bool>,
}

/// The overrides an attempt has made so far, in chronological order, together
/// with (ghost) snapshots of the marker table around each of them. Restoring
/// the entries in reverse order walks the snapshots back to the first one.
pub struct ScopeLog {
    pub entries: Vec<OverrideEntry>,
    pub snaps: Ghost<Seq<MarkerSeq>>,
}

impl ScopeLog {
    /// Each recorded override, when restored, steps the marker table back from
    /// the snapshot after it to the snapshot before it.
    pub open spec fn wf(&self) -> bool {
        &&& self.snaps@.len() == self.entries@.len() + 1
        &&& forall|j: int|
            0 <= j < self.entries@.len() ==> marker_restore(
                self.snaps@[j + 1],
                (#[trigger] self.entries@[j]).name@,
                self.entries@[j].prev,
            ) == self.snaps@[j]
    }

    /// The marker table as it stood after the last recorded override.
    pub open spec fn last_snap(&self) -> MarkerSeq {
        self.snaps@.last()
    }

    pub fn new() -> (r: ScopeLog)
        ensures
            r.entries@.len() == 0,
            r.wf(),
    {
        let ghost s0: Seq<MarkerSeq> = seq![Seq::empty()];
        ScopeLog { entries: Vec::new(), snaps: Ghost(s0) }
    }
}

/// The entries that declaring the given marker names pushes: one fresh entry
/// per name, initially `false`.
pub open spec fn decl_entries(names: Seq<Seq<char>>) -> MarkerSeq {
    names.map(|i: int, n: Seq<char>| (n, false))
}

/// The marker table after declaring the given names in order.
pub open spec fn push_declares(m: MarkerSeq, names: Seq<Seq<char>>) -> MarkerSeq {
    m + decl_entries(names)
}

/// The marker table after overriding each of the given names to `value`, in
/// order.
pub open spec fn apply_overrides(m: MarkerSeq, names: Seq<Seq<char>>, value: bool) -> MarkerSeq
    decreases names.len(),
{
    if names.len() == 0 {
        m
    } else {
        marker_set(apply_overrides(m, names.drop_last(), value), names.last(), value)
    }
}

/// The marker table after an attempt's whole marker setup: declarations, then
/// the `true` overrides, then the `false` overrides.
pub open spec fn scope_markers(
    m: MarkerSeq,
    decls: Seq<Seq<char>>,
    sets: Seq<Seq<char>>,
    unsets: Seq<Seq<char>>,
) -> MarkerSeq {
    apply_overrides(apply_overrides(push_declares(m, decls), sets, true), unsets, false)
}

/// Applies one list of overrides, recording each in the log.
#[verifier::loop_isolation(false)]
pub(crate) fn apply_override_list(
    r: &mut Reader,
    names: &Vec<String>,
    value: bool,
    log: &mut ScopeLog,
)
    requires
        old(r).wf(),
    ensures
        final(r).wf(),
        final(r).same_except_markers(old(r)),
        final(r).mv() == apply_overrides(old(r).mv(), names_view(names@), value),
        final(log).entries@.len() == old(log).entries@.len() + names@.len(),
        names@.len() == 0 ==> final(log).entries@ == old(log).entries@,
        old(log).wf() && old(log).last_snap() == old(r).mv() ==> {
            &&& final(log).wf()
            &&& final(log).last_snap() == final(r).mv()
            &&& final(log).snaps@[0] == old(log).snaps@[0]
        },
{
    let ghost m0 = r.mv();
    let ghost cond = old(log).wf() && old(log).last_snap() == old(r).mv();
    let mut i: usize = 0;
    while i < names.len()
        invariant
            0 <= i <= names@.len(),
            r.wf(),
            r.same_except_markers(&*old(r)),
            r.mv() == apply_overrides(m0, names_view(names@).take(i as int), value),
            log.entries@.len() == old(log).entries@.len() + i,
            i == 0 ==> log.entries@ == old(log).entries@,
            cond ==> log.wf() && log.last_snap() == r.mv() && log.snaps@[0] == old(
                log,
            ).snaps@[0],
        decreases names@.len() - i,
    {
        let ghost m_before = r.mv();
        let prev = r.set_marker(names[i].as_str(), value);
        log.entries.push(OverrideEntry { name: names[i].clone(), prev });
        proof {
            lemma_marker_override_roundtrip(m_before, names@[i as int]@, value);
        }
        log.snaps = Ghost(log.snaps@.push(r.mv()));
        proof {
            assert(names_view(names@).take(i + 1).drop_last() =~= names_view(names@).take(
                i as int,
            ));
            assert(r.mv() == apply_overrides(m0, names_view(names@).take(i + 1), value));
        }
        i += 1;
    }
    proof {
        assert(names_view(names@).take(names@.len() as int) =~= names_view(names@));
    }
}

/// Declares an attempt's markers and applies its overrides, recording the
/// overrides in the log; returns the handles that retract the declarations.
#[verifier::loop_isolation(false)]
pub(crate) fn scope_enter(
    r: &mut Reader,
    declared: &Vec<String>,
    sets: &Vec<String>,
    unsets: &Vec<String>,
    log: &mut ScopeLog,
) -> (handles: Vec<usize>)
    requires
        old(r).wf(),
    ensures
        final(r).wf(),
        final(r).same_except_markers(old(r)),
        final(r).mv() == scope_markers(
            old(r).mv(),
            names_view(declared@),
            names_view(sets@),
            names_view(unsets@),
        ),
        handles@.len() == declared@.len(),
        forall|j: int| 0 <= j < handles@.len() ==> handles@[j] == old(r).mv().len() + j,
        final(log).entries@.len() == old(log).entries@.len() + sets@.len() + unsets@.len(),
        sets@.len() == 0 && unsets@.len() == 0 ==> final(log).entries@ == old(log).entries@,
        old(log).entries@.len() == 0 ==> {
            &&& final(log).wf()
            &&& final(log).snaps@[0] == push_declares(old(r).mv(), names_view(declared@))
            &&& final(log).last_snap() == final(r).mv()
        },
        declared@.len() == 0 && old(log).wf() && old(log).last_snap() == old(r).mv() ==> {
            &&& final(log).wf()
            &&& final(log).last_snap() == final(r).mv()
            &&& final(log).snaps@[0] == old(log).snaps@[0]
        },
{
    let ghost m0 = r.mv();
    let mut handles: Vec<usize> = Vec::new();
    let mut i: usize = 0;
    while i < declared.len()
        invariant
            0 <= i <= declared@.len(),
            r.wf(),
            r.same_except_markers(&*old(r)),
            handles@.len() == i,
            forall|j: int| 0 <= j < i ==> handles@[j] == m0.len() + j,
            r.mv() == push_declares(m0, names_view(declared@).take(i as int)),
        decreases declared@.len() - i,
    {
        let h = r.declare_marker(declared[i].as_str());
        handles.push(h);
        proof {
            assert(r.mv() =~= push_declares(m0, names_view(declared@).take(i + 1)));
        }
        i += 1;
    }
    proof {
        assert(names_view(declared@).take(declared@.len() as int) =~= names_view(declared@));
        if declared@.len() == 0 {
            assert(push_declares(m0, names_view(declared@)) =~= m0);
        }
    }
    if log.entries.len() == 0 {
        let ghost s1: Seq<MarkerSeq> = seq![r.mv()];
        log.snaps = Ghost(s1);
    }
    apply_override_list(r, sets, true, log);
    apply_override_list(r, unsets, false, log);
    handles
}

/// Retracts an attempt's declared markers, in reverse declaration order. When
/// the handles name the topmost entries of the table — as they do whenever
/// everything pushed above them has been removed again — exactly those entries
/// disappear.
#[verifier::loop_isolation(false)]
pub(crate) fn scope_retract(r: &mut Reader, handles: &Vec<usize>)
    requires
        old(r).wf(),
    ensures
        final(r).wf(),
        final(r).same_except_markers(old(r)),
        handles@.len() == 0 ==> final(r).mv() == old(r).mv(),
        (handles@.len() <= old(r).mv().len() && (forall|j: int|
            0 <= j < handles@.len() ==> handles@[j] == old(r).mv().len() - handles@.len() + j))
            ==> final(r).mv() == old(r).mv().take(
            old(r).mv().len() - handles@.len(),
        ),
{
    let ghost m0 = old(r).mv();
    let ghost tail_cond = handles@.len() <= m0.len() && (forall|j: int|
        0 <= j < handles@.len() ==> handles@[j] == m0.len() - handles@.len() + j);
    let mut j: usize = handles.len();
    while j > 0
        invariant
            0 <= j <= handles@.len(),
            r.wf(),
            r.same_except_markers(&*old(r)),
            handles@.len() == 0 ==> r.mv() == m0,
            tail_cond ==> r.mv() == m0.take(m0.len() - (handles@.len() - j)),
        decreases j,
    {
        j -= 1;
        let ghost m_cur = r.mv();
        r.remove_marker(handles[j]);
        proof {
            if tail_cond {
                assert(m_cur == m0.take(m0.len() - (handles@.len() - j - 1)));
                assert(handles@[j as int] == m_cur.len() - 1);
                assert(m_cur.remove(m_cur.len() - 1) =~= m0.take(
                    m0.len() - (handles@.len() - j),
                ));
            }
        }
    }
}

/// Restores an attempt's overrides in reverse order of establishment. When the
/// marker table still stands where the last override left it, this walks it
/// back to where the attempt's first override found it.
#[verifier::loop_isolation(false)]
pub(crate) fn scope_unwind(r: &mut Reader, log: &ScopeLog)
    requires
        old(r).wf(),
    ensures
        final(r).wf(),
        final(r).same_except_markers(old(r)),
        log.entries@.len() == 0 ==> final(r).mv() == old(r).mv(),
        log.wf() && log.last_snap() == old(r).mv() ==> final(r).mv() == log.snaps@[0],
{
    let ghost cond = log.wf() && log.last_snap() == old(r).mv();
    let mut j: usize = log.entries.len();
    while j > 0
        invariant
            0 <= j <= log.entries@.len(),
            r.wf(),
            r.same_except_markers(&*old(r)),
            log.entries@.len() == 0 ==> r.mv() == old(r).mv(),
            cond ==> r.mv() == log.snaps@[j as int],
        decreases j,
    {
        j -= 1;
        let prev = log.entries[j].prev;
        r.restore_marker(log.entries[j].name.as_str(), prev);
    }
}

/// Evaluates a field's or variant's marker test against the current table.
#[verifier::loop_isolation(false)]
pub(crate) fn pass_marker_test(r: &Reader, attrs: &FieldAttributes) -> (b: bool)
    ensures
        b == crate::schema::attrs_pass(*attrs, r.mv()),
{
    let mut i: usize = 0;
    while i < attrs.ignore_if_marker.len()
        invariant
            0 <= i <= attrs.ignore_if_marker@.len(),
            forall|j: int|
                0 <= j < i ==> !crate::markers::marker_get(
                    r.mv(),
                    names_view(attrs.ignore_if_marker@)[j],
                ),
        decreases attrs.ignore_if_marker@.len() - i,
    {
        if r.get_marker(attrs.ignore_if_marker[i].as_str()) {
            proof {
                assert(names_view(attrs.ignore_if_marker@)[i as int]
                    == attrs.ignore_if_marker@[i as int]@);
            }
            return false;
        }
        i += 1;
    }
    let mut i: usize = 0;
    while i < attrs.ignore_if_not_marker.len()
        invariant
            0 <= i <= attrs.ignore_if_not_marker@.len(),
            forall|j: int|
                0 <= j < i ==> crate::markers::marker_get(
                    r.mv(),
                    names_view(attrs.ignore_if_not_marker@)[j],
                ),
        decreases attrs.ignore_if_not_marker@.len() - i,
    {
        if !r.get_marker(attrs.ignore_if_not_marker[i].as_str()) {
            proof {
                assert(names_view(attrs.ignore_if_not_marker@)[i as int]
                    == attrs.ignore_if_not_marker@[i as int]@);
            }
            return false;
        }
        i += 1;
    }
    true
}


/// The cursor position after an optional space skip.
pub open spec fn spec_after_spaces(input: Seq<char>, i: int, skip: bool) -> int {
    if skip {
        spec_skip_spaces(input, i)
    } else {
        i
    }
}

/// Where the cursor stands once a field's prefix (if any) has been consumed
/// and the spaces after it skipped, or `None` when the prefix does not occur
/// at the cursor.
pub open spec fn spec_prefix_end(f: FieldSchema, input: Seq<char>, i: int) -> Option<int> {
    match f.attributes.prefix {
        Some(pre) => if spec_starts_with(input, i, pre@) {
            Some(
                spec_after_spaces(
                    input,
                    i + pre@.len(),
                    f.attributes.consume_spaces_after_prefix != Some(false),
                ),
            )
        } else {
            None
        },
        None => Some(i),
    }
}

/// Whether a field's exclusion lookahead fires: its prefix was consumed and
/// the excluded pattern matches at the cursor. Such a failure records no
/// expectation (absence constraints are not phrased as an expected token).
pub open spec fn spec_excluded(f: FieldSchema, input: Seq<char>, i: int) -> bool {
    match spec_prefix_end(f, input, i) {
        Some(i1) => match f.attributes.exclude {
            Some(ex) => pattern_prefix_len(ex@, input.skip(i1)) is Some,
            None => false,
        },
        None => false,
    }
}

/// The exact outcome of one attempt of a textual field (one read by a literal
/// or pattern directive, or with nothing to read) at position `i`: the text it
/// produces and the position it leaves the cursor at, or `None` when any of
/// its directives fails. This walks the directives in attempt order: prefix,
/// exclusion lookahead, the core read, the minimum-count check, space
/// skipping, suffix, and the trailing lookaheads.
pub open spec fn spec_text_step(f: FieldSchema, input: Seq<char>, i: int) -> Option<
    (Seq<char>, int),
> {
    match spec_prefix_end(f, input, i) {
        None => None,
        Some(i1) => {
            let excluded = match f.attributes.exclude {
                Some(ex) => pattern_prefix_len(ex@, input.skip(i1)) is Some,
                None => false,
            };
            if excluded {
                None
            } else {
                let core = match f.attributes.regex {
                    Some(p) => match pattern_prefix_len(p@, input.skip(i1)) {
                        Some(n) => Some((input.subrange(i1, i1 + n), i1 + n)),
                        None => None,
                    },
                    None => match f.attributes.value {
                        Some(lit) => if spec_starts_with(input, i1, lit@) {
                            Some((lit@, i1 + lit@.len()))
                        } else {
                            None
                        },
                        None => Some((Seq::empty(), i1)),
                    },
                };
                match core {
                    None => None,
                    Some(tv) => {
                        let under_min = match f.attributes.min {
                            Some(m) => tv.0.len() < m,
                            None => false,
                        };
                        if under_min {
                            None
                        } else {
                            let i3 = spec_after_spaces(
                                input,
                                tv.1,
                                f.attributes.consume_spaces != Some(false),
                            );
                            let after_suffix = match f.attributes.suffix {
                                Some(sfx) => if spec_starts_with(input, i3, sfx@) {
                                    Some(
                                        spec_after_spaces(
                                            input,
                                            i3 + sfx@.len(),
                                            f.attributes.consume_spaces_after_suffix != Some(
                                                false,
                                            ),
                                        ),
                                    )
                                } else {
                                    None
                                },
                                None => Some(i3),
                            };
                            match after_suffix {
                                None => None,
                                Some(i4) => match f.attributes.followed_by {
                                    Some(fb) => if pattern_prefix_len(fb@, input.skip(i4))
                                        is Some {
                                        Some((tv.0, i4))
                                    } else {
                                        None
                                    },
                                    None => match f.attributes.not_followed_by {
                                        Some(nfb) => if pattern_prefix_len(
                                            nfb@,
                                            input.skip(i4),
                                        ) is Some {
                                            None
                                        } else {
                                            Some((tv.0, i4))
                                        },
                                        None => Some((tv.0, i4)),
                                    },
                                },
                            }
                        }
                    },
                }
            }
        },
    }
}

/// A field whose attempt `spec_text_step` decides: it is read by its literal
/// or pattern directive, or has nothing to read, so no nested parse runs.
pub open spec fn is_text_field(f: FieldSchema) -> bool {
    field_reads_text(f) || f.shape is Text
}

/// A textual field is actually attempted: it is not ignored, its marker test
/// passes against the table `m`, and no cascaded failure short-circuits it.
pub open spec fn spec_attempts_text(
    f: FieldSchema,
    root_cascade: bool,
    m: MarkerSeq,
    option_failed: bool,
) -> bool {
    &&& is_text_field(f)
    &&& !f.attributes.ignore
    &&& attrs_pass(f.attributes, m)
    &&& !(spec_is_optional(f) && spec_in_cascade(root_cascade, f) && option_failed)
}

/// The same field without its `not_followed_by` directive: what the attempt
/// would do before the trailing absence check. An absence constraint that
/// fails records no expectation, so a field whose every other stage succeeds
/// leaves the diagnostics untouched.
pub open spec fn spec_without_trailing_lookahead(f: FieldSchema) -> FieldSchema {
    FieldSchema {
        attributes: FieldAttributes { not_followed_by: None, ..f.attributes },
        ..f
    }
}

/// Whether a field may fail and default instead of aborting its record: it is
/// declared optional, or its shape is an optional nested parse.
pub open spec fn spec_is_optional(f: FieldSchema) -> bool {
    f.shape is OptionItem || f.attributes.optional == Some(true)
}

/// Whether a field participates in the record's optional-failure cascade: the
/// root switches cascading on and the field does not opt out.
pub open spec fn spec_in_cascade(root_cascade: bool, f: FieldSchema) -> bool {
    root_cascade && f.attributes.cascade != Some(false)
}

pub(crate) fn is_optional_field(fs: &FieldSchema) -> (b: bool)
    ensures
        b == spec_is_optional(*fs),
{
    let declared = match fs.attributes.optional {
        Some(b) => b,
        None => false,
    };
    declared || matches!(fs.shape, FieldShape::OptionItem(_))
}

pub(crate) fn in_cascade(root_cascade: bool, fs: &FieldSchema) -> (b: bool)
    ensures
        b == spec_in_cascade(root_cascade, *fs),
{
    let opted_out = match fs.attributes.cascade {
        Some(b) => !b,
        None => false,
    };
    root_cascade && !opted_out
}

/// Whether a space-skipping switch is on (every switch defaults to on).
pub(crate) fn space_flag(o: Option<bool>) -> (b: bool)
    ensures
        b == (o != Some(false)),
{
    match o {
        Some(b2) => b2,
        None => true,
    }
}

/// The outcome of one field attempt within a record.
pub enum FieldOutcome {
    /// The field produced a value: parsed, defaulted, or skipped. Carries the
    /// record's cascade flag as this field leaves it.
    Resolved { value: Value, option_failed: bool },
    /// A non-optional directive failed: the whole record attempt must abort.
    Aborted,
}

/// Runs one field's directive stages in attempt order — prefix, exclusion
/// lookahead, the core read (literal, pattern, nested item, optional item, or
/// repeated items), the minimum-count and committed-prefix checks, space
/// skipping, suffix, and the trailing lookaheads — reporting whether the field
/// failed and the value it read. Marker scoping and failure resolution belong
/// to the caller. A failed read records the field's name, or the missing
/// literal or pattern, as the expectation; a matching `not_followed_by`
/// records none.
#[verifier::loop_isolation(false)]
#[verifier::rlimit(100)]
fn run_field_stages(fs: &FieldSchema, r: &mut Reader, pre_failed: bool) -> (res: (bool, Value))
    requires
        old(r).wf(),
    ensures
        final(r).wf(),
        final(r).input@ == old(r).input@,
        old(r).index <= final(r).index,
        !res.0 ==> field_value_wf(*fs, res.1),
        pre_failed ==> res.0 && final(r).index == old(r).index && final(r).mv() == old(r).mv()
            && final(r).ev() == old(r).ev() && final(r).expected_index == old(r).expected_index,
        field_no_overrides(*fs) ==> final(r).mv() == old(r).mv(),
        is_text_field(*fs) ==> final(r).mv() == old(r).mv(),
        is_text_field(*fs) && !pre_failed ==> (match spec_text_step(
            *fs,
            old(r).input@,
            old(r).index as int,
        ) {
            Some(tv) => !res.0 && (res.1 matches Value::Text(t) && t@ == tv.0) && final(r).index
                == tv.1,
            None => res.0,
        }),
        !res.0 && fs.shape is VecItem && !field_reads_text(*fs) ==> (res.1 matches Value::List(l)
            && (fs.attributes.min matches Some(m) ==> l@.len() >= m) && (fs.attributes.prefix
            is Some && fs.attributes.suffix is None ==> l@.len() > 0)),
        !res.0 && fs.shape is OptionItem && !field_reads_text(*fs) && fs.attributes.prefix is Some
            ==> (res.1 matches Value::Maybe(o) && o is Some),
        is_text_field(*fs) && !pre_failed && spec_text_step(*fs, old(r).input@, old(r).index as int)
            is Some ==> final(r).ev() == old(r).ev() && final(r).expected_index == old(
            r,
        ).expected_index,
        is_text_field(*fs) && !pre_failed && fs.attributes.followed_by is None
            && fs.attributes.not_followed_by is Some && spec_text_step(
            spec_without_trailing_lookahead(*fs),
            old(r).input@,
            old(r).index as int,
        ) is Some ==> final(r).ev() == old(r).ev() && final(r).expected_index == old(
            r,
        ).expected_index,
        is_text_field(*fs) && !pre_failed && spec_excluded(*fs, old(r).input@, old(r).index as int)
            ==> final(r).ev() == old(r).ev() && final(r).expected_index == old(
            r,
        ).expected_index,
    decreases fs, 0nat,
{
    let ghost mv0 = r.mv();
    let ghost start = r.index;
    let mut failed = pre_failed;
    let mut value = fs.default_value();
    let mut prefix_ok = true;

    if !failed {
        if let Some(prefix) = &fs.attributes.prefix {
            if r.read_string(prefix.as_str()) {
                if space_flag(fs.attributes.consume_spaces_after_prefix) {
                    r.eat_spaces();
                }
            } else {
                r.set_expected_string(prefix.as_str());
                prefix_ok = false;
                failed = true;
            }
        }
    }
    if !failed {
        if let Some(ex) = &fs.attributes.exclude {
            if r.peek_regex(ex.as_str()) {
                failed = true;
            }
        }
    }
    if !failed {
        if let Some(pat) = &fs.attributes.regex {
            match r.read_regex(pat.as_str()) {
                Some(t) => {
                    value = Value::Text(t);
                },
                None => {
                    r.set_expected_regex(pat.as_str());
                    failed = true;
                },
            }
        } else if let Some(lit) = &fs.attributes.value {
            if r.read_string(lit.as_str()) {
                value = Value::Text(lit.clone());
            } else {
                r.set_expected_string(lit.as_str());
                failed = true;
            }
        } else {
            match &fs.shape {
                FieldShape::Text => {},
                FieldShape::Item(child) => {
                    match parse_schema(child, r) {
                        Some(v) => {
                            value = v;
                        },
                        None => {
                            r.set_expected_item(fs.name.as_str());
                            failed = true;
                        },
                    }
                },
                FieldShape::OptionItem(child) => {
                    match parse_schema(child, r) {
                        Some(v) => {
                            value = Value::Maybe(Some(Box::new(v)));
                        },
                        None => {
                            if fs.attributes.prefix.is_some() {
                                failed = true;
                            }
                        },
                    }
                },
                FieldShape::VecItem(child) => {
                    let between = space_flag(fs.attributes.consume_spaces_between_items);
                    let mut items: Vec<Value> = Vec::new();
                    loop
                        invariant
                            r.wf(),
                            r.input@ == old(r).input@,
                            start <= r.index,
                            forall|t: int|
                                0 <= t < items@.len() ==> value_wf(**child, #[trigger] items@[t]),
                            schema_no_overrides(**child) ==> r.mv() == mv0,
                        decreases r.input@.len() - r.index,
                    {
                        let save = r.get_index();
                        match parse_schema(child, r) {
                            None => { break; },
                            Some(v) => {
                                items.push(v);
                                if between {
                                    r.eat_spaces();
                                }
                                if let Some(sep) = &fs.attributes.separator {
                                    if !r.read_string(sep.as_str()) {
                                        break;
                                    }
                                    if between {
                                        r.eat_spaces();
                                    }
                                }
                                if r.get_index() == save {
                                    break;
                                }
                            },
                        }
                    }
                    value = Value::List(items);
                },
            }
        }
    }
    if !failed {
        if let Some(m) = fs.attributes.min {
            let n = match &value {
                Value::Text(t) => Some(t.unicode_len()),
                Value::List(l) => Some(l.len()),
                _ => None,
            };
            if let Some(n) = n {
                if n < m {
                    r.set_expected_item(fs.name.as_str());
                    failed = true;
                }
            }
        }
    }
    if !failed {
        if matches!(fs.shape, FieldShape::OptionItem(_)) && fs.attributes.prefix.is_some()
            && !field_reads_text_exec(fs) {
            if matches!(value, Value::Maybe(None)) {
                failed = true;
            }
        }
    }
    if !failed {
        if matches!(fs.shape, FieldShape::VecItem(_)) && fs.attributes.prefix.is_some()
            && fs.attributes.suffix.is_none() && prefix_ok && !field_reads_text_exec(fs) {
            let empty = match &value {
                Value::List(l) => l.is_empty(),
                _ => false,
            };
            if empty {
                r.set_expected_item(fs.name.as_str());
                failed = true;
            }
        }
    }
    if !failed && space_flag(fs.attributes.consume_spaces) {
        r.eat_spaces();
    }
    if !failed {
        if let Some(sfx) = &fs.attributes.suffix {
            if r.read_string(sfx.as_str()) {
                if space_flag(fs.attributes.consume_spaces_after_suffix) {
                    r.eat_spaces();
                }
            } else {
                r.set_expected_string(sfx.as_str());
                failed = true;
            }
        }
    }
    if !failed {
        if let Some(fb) = &fs.attributes.followed_by {
            if !r.peek_regex(fb.as_str()) {
                r.set_expected_regex(fb.as_str());
                failed = true;
            }
        } else if let Some(nfb) = &fs.attributes.not_followed_by {
            if r.peek_regex(nfb.as_str()) {
                failed = true;
            }
        }
    }
    (failed, value)
}

/// One field attempt: the marker test, marker setup, the cascade
/// short-circuit, the directive stages of `run_field_stages`, and failure
/// resolution. An optional field that fails anywhere restores the cursor to
/// its own start and defaults; a mandatory failure aborts the record, after
/// this field's declared markers are retracted. For a textual field the whole
/// attempt is pinned by `spec_text_step`.
#[verifier::loop_isolation(false)]
#[verifier::rlimit(100)]
pub fn field_step(
    fs: &FieldSchema,
    root_cascade: bool,
    r: &mut Reader,
    option_failed: bool,
    log: &mut ScopeLog,
) -> (out: FieldOutcome)
    requires
        old(r).wf(),
    ensures
        final(r).wf(),
        final(r).input@ == old(r).input@,
        out matches FieldOutcome::Resolved { value, option_failed: nf } ==> {
            &&& old(r).index <= final(r).index
            &&& field_value_wf(*fs, value)
            &&& (option_failed ==> nf)
        },
        out is Aborted ==> !spec_is_optional(*fs),
        (fs.attributes.ignore || !attrs_pass(fs.attributes, old(r).mv())) ==> {
            &&& out matches FieldOutcome::Resolved { value, option_failed: nf } && nf
                == option_failed && is_default_of(*fs, value)
            &&& final(r).same_except_index(old(r))
            &&& final(r).index == old(r).index
            &&& *final(log) == *old(log)
        },
        (!fs.attributes.ignore && attrs_pass(fs.attributes, old(r).mv()) && spec_is_optional(*fs)
            && spec_in_cascade(root_cascade, *fs) && option_failed) ==> {
            &&& out matches FieldOutcome::Resolved { value, option_failed: nf } && nf
                && is_default_of(*fs, value)
            &&& final(r).index == old(r).index
        },
        field_no_overrides(*fs) ==> final(r).mv() == old(r).mv() && final(log).entries@ == old(
            log,
        ).entries@,
        field_overrides_only(*fs) && old(log).wf() && old(log).last_snap() == old(r).mv() ==> {
            &&& final(log).wf()
            &&& final(log).last_snap() == final(r).mv()
            &&& final(log).snaps@[0] == old(log).snaps@[0]
        },
        spec_attempts_text(*fs, root_cascade, old(r).mv(), option_failed) ==> (match spec_text_step(
            *fs,
            old(r).input@,
            old(r).index as int,
        ) {
            Some(tv) => {
                &&& out matches FieldOutcome::Resolved { value, option_failed: nf } && (
                value matches Value::Text(t) && t@ == tv.0) && nf == option_failed
                &&& final(r).index == tv.1
            },
            None => if spec_is_optional(*fs) {
                &&& out matches FieldOutcome::Resolved { value, option_failed: nf }
                    && is_default_of(*fs, value) && nf == (option_failed || spec_in_cascade(
                    root_cascade,
                    *fs,
                ))
                &&& final(r).index == old(r).index
            } else {
                out is Aborted
            },
        }),
        (!spec_is_optional(*fs) && fs.shape is VecItem && !field_reads_text(*fs)
            && !fs.attributes.ignore && attrs_pass(fs.attributes, old(r).mv())) ==> (out
            matches FieldOutcome::Resolved { value, .. } ==> (value matches Value::List(l) && (
        fs.attributes.min matches Some(m) ==> l@.len() >= m) && (fs.attributes.prefix is Some
            && fs.attributes.suffix is None ==> l@.len() > 0))),
        fs.shape is OptionItem && !field_reads_text(*fs) && fs.attributes.prefix is Some ==> (out
            matches FieldOutcome::Resolved { value, .. } ==> (value matches Value::Maybe(o) && (o
            is Some || final(r).index == old(r).index))),
        (spec_attempts_text(*fs, root_cascade, old(r).mv(), option_failed) && spec_text_step(
            *fs,
            old(r).input@,
            old(r).index as int,
        ) is Some) ==> final(r).ev() == old(r).ev() && final(r).expected_index == old(
            r,
        ).expected_index,
        (spec_attempts_text(*fs, root_cascade, old(r).mv(), option_failed)
            && fs.attributes.followed_by is None && fs.attributes.not_followed_by is Some
            && spec_text_step(
            spec_without_trailing_lookahead(*fs),
            old(r).input@,
            old(r).index as int,
        ) is Some) ==> final(r).ev() == old(r).ev() && final(r).expected_index == old(
            r,
        ).expected_index,
        (spec_attempts_text(*fs, root_cascade, old(r).mv(), option_failed) && spec_excluded(
            *fs,
            old(r).input@,
            old(r).index as int,
        )) ==> final(r).ev() == old(r).ev() && final(r).expected_index == old(
            r,
        ).expected_index,
    decreases fs, 1nat,
{
    if fs.attributes.ignore {
        return FieldOutcome::Resolved { value: fs.default_value(), option_failed };
    }
    if !pass_marker_test(r, &fs.attributes) {
        return FieldOutcome::Resolved { value: fs.default_value(), option_failed };
    }
    let ghost mv_pre = r.mv();
    let handles = scope_enter(
        r,
        &fs.attributes.declared_markers,
        &fs.attributes.set_markers,
        &fs.attributes.unset_markers,
        log,
    );
    let ghost decl_names = names_view(fs.attributes.declared_markers@);
    proof {
        if field_no_overrides(*fs) {
            assert(names_view(fs.attributes.set_markers@).len() == 0);
            assert(names_view(fs.attributes.unset_markers@).len() == 0);
            assert(r.mv() == push_declares(mv_pre, decl_names));
        }
    }
    let field_start = r.get_index();
    let optional = is_optional_field(fs);
    let cascading = in_cascade(root_cascade, fs);
    let pre_failed = optional && cascading && option_failed;

    let staged = run_field_stages(fs, r, pre_failed);
    let failed = staged.0;

    if !failed {
        scope_retract(r, &handles);
        proof {
            if field_no_overrides(*fs) {
                assert(push_declares(mv_pre, decl_names).take(mv_pre.len() as int) =~= mv_pre);
            }
        }
        return FieldOutcome::Resolved { value: staged.1, option_failed };
    }
    if optional {
        r.set_index(field_start);
        scope_retract(r, &handles);
        proof {
            if field_no_overrides(*fs) {
                assert(push_declares(mv_pre, decl_names).take(mv_pre.len() as int) =~= mv_pre);
            }
        }
        return FieldOutcome::Resolved {
            value: fs.default_value(),
            option_failed: option_failed || cascading,
        };
    }
    scope_retract(r, &handles);
    proof {
        if field_no_overrides(*fs) {
            assert(push_declares(mv_pre, decl_names).take(mv_pre.len() as int) =~= mv_pre);
        }
    }
    FieldOutcome::Aborted
}

pub(crate) fn field_reads_text_exec(fs: &FieldSchema) -> (b: bool)
    ensures
        b == field_reads_text(*fs),
{
    fs.attributes.regex.is_some() || fs.attributes.value.is_some()
}


/// A record that `spec_text_record_parse` decides: every field is textual
/// (read by a literal or pattern directive, or with nothing to read) and
/// unconditionally attempted (no marker gates).
pub open spec fn is_text_record(rs: RecordSchema) -> bool {
    forall|i: int|
        0 <= i < rs.fields@.len() ==> {
            &&& is_text_field(#[trigger] rs.fields@[i])
            &&& rs.fields@[i].attributes.ignore_if_marker@.len() == 0
            &&& rs.fields@[i].attributes.ignore_if_not_marker@.len() == 0
        }
}

/// The exact outcome of attempting fields `k..` of a record of textual fields
/// at position `i` with cascade flag `of`: the texts the fields produce (a
/// defaulted or ignored field produces the empty text) and the final cursor
/// position, or `None` when a mandatory field fails and the record aborts.
pub open spec fn spec_text_record_parse(
    fields: Seq<FieldSchema>,
    input: Seq<char>,
    k: int,
    i: int,
    of: bool,
    cascade: bool,
) -> Option<(Seq<Seq<char>>, int)>
    decreases fields.len() - k,
{
    if k < 0 || k >= fields.len() {
        Some((Seq::empty(), i))
    } else {
        let f = fields[k];
        if f.attributes.ignore || (spec_is_optional(f) && spec_in_cascade(cascade, f) && of) {
            match spec_text_record_parse(fields, input, k + 1, i, of, cascade) {
                Some(rest) => Some((seq![Seq::<char>::empty()] + rest.0, rest.1)),
                None => None,
            }
        } else {
            match spec_text_step(f, input, i) {
                Some(tv) => match spec_text_record_parse(fields, input, k + 1, tv.1, of, cascade) {
                    Some(rest) => Some((seq![tv.0] + rest.0, rest.1)),
                    None => None,
                },
                None => if spec_is_optional(f) {
                    match spec_text_record_parse(
                        fields,
                        input,
                        k + 1,
                        i,
                        of || spec_in_cascade(cascade, f),
                        cascade,
                    ) {
                        Some(rest) => Some((seq![Seq::<char>::empty()] + rest.0, rest.1)),
                        None => None,
                    }
                } else {
                    None
                },
            }
        }
    }
}

/// Each value is the text the specification assigns it.
pub open spec fn all_text_values(vals: Seq<Value>, texts: Seq<Seq<char>>) -> bool {
    &&& vals.len() == texts.len()
    &&& forall|j: int|
        0 <= j < vals.len() ==> (#[trigger] vals[j] matches Value::Text(t) && t@ == texts[j])
}

/// Parses a record: its fields are attempted sequentially, each either
/// succeeding, defaulting (optional failure, skip, or cascade), or aborting
/// the attempt. On abort every override made during the attempt is restored in
/// reverse order, the root's declared markers are retracted, and the cursor
/// returns exactly to the record's start. On success the consumed span is
/// captured when the schema asks for location tracking.
#[verifier::loop_isolation(false)]
#[verifier::rlimit(60)]
pub fn parse_record(rs: &RecordSchema, r: &mut Reader) -> (out: Option<Value>)
    requires
        old(r).wf(),
    ensures
        final(r).wf(),
        final(r).input@ == old(r).input@,
        out is None ==> final(r).index == old(r).index,
        out is Some ==> old(r).index <= final(r).index,
        out matches Some(v) ==> value_wf(Schema::Record(*rs), v) && (v matches Value::Record(rv)
            && (rs.attributes.located ==> rv.location == Some(
            ItemLocation { start: old(r).index, end: final(r).index },
        ))),
        record_no_overrides(*rs) ==> final(r).mv() == old(r).mv(),
        record_overrides_only(*rs) && out is None ==> final(r).mv() == old(r).mv(),
        rs.fields@.len() == 0 ==> out is Some,
        (forall|i: int|
            0 <= i < rs.fields@.len() ==> (#[trigger] rs.fields@[i]).attributes.ignore) ==> out
            is Some && final(r).index == old(r).index,
        is_text_record(*rs) ==> (match spec_text_record_parse(
            rs.fields@,
            old(r).input@,
            0,
            old(r).index as int,
            false,
            rs.attributes.cascade,
        ) {
            Some(res) => {
                &&& out matches Some(v) && (v matches Value::Record(rv) && all_text_values(
                    rv.fields@,
                    res.0,
                ))
                &&& final(r).index == res.1
            },
            None => out is None,
        }),
    decreases rs,
{
    let start = r.get_index();
    let ghost mv0 = r.mv();
    let ghost decl_names = names_view(rs.attributes.declared_markers@);
    let mut log = ScopeLog::new();
    let root_handles = scope_enter(
        r,
        &rs.attributes.declared_markers,
        &rs.attributes.set_markers,
        &rs.attributes.unset_markers,
        &mut log,
    );
    proof {
        if record_no_overrides(*rs) {
            assert(names_view(rs.attributes.set_markers@).len() == 0);
            assert(names_view(rs.attributes.unset_markers@).len() == 0);
            assert(r.mv() == push_declares(mv0, decl_names));
        }
        if record_overrides_only(*rs) {
            assert(push_declares(mv0, decl_names) =~= mv0);
        }
    }
    let mut values: Vec<Value> = Vec::new();
    let mut option_failed = false;
    let ghost mut texts: Seq<Seq<char>> = Seq::empty();
    let ghost whole = spec_text_record_parse(
        rs.fields@,
        r.input@,
        0,
        start as int,
        false,
        rs.attributes.cascade,
    );
    proof {
        if let Some(rest) = whole {
            assert(Seq::<Seq<char>>::empty() + rest.0 =~= rest.0);
        }
    }
    let mut i: usize = 0;
    while i < rs.fields.len()
        invariant
            r.wf(),
            r.input@ == old(r).input@,
            start == old(r).index,
            start <= r.index,
            0 <= i <= rs.fields@.len(),
            values@.len() == i,
            forall|j: int|
                0 <= j < i ==> field_value_wf(#[trigger] rs.fields@[j], values@[j]),
            record_no_overrides(*rs) ==> r.mv() == push_declares(mv0, decl_names)
                && log.entries@.len() == 0,
            record_overrides_only(*rs) ==> log.wf() && log.last_snap() == r.mv()
                && log.snaps@[0] == mv0,
            (forall|j: int|
                0 <= j < rs.fields@.len() ==> (#[trigger] rs.fields@[j]).attributes.ignore)
                ==> r.index == start,
            is_text_record(*rs) ==> {
                &&& all_text_values(values@, texts)
                &&& (match spec_text_record_parse(
                    rs.fields@,
                    old(r).input@,
                    i as int,
                    r.index as int,
                    option_failed,
                    rs.attributes.cascade,
                ) {
                    Some(rest) => whole == Some((texts + rest.0, rest.1)),
                    None => whole is None,
                })
            },
        decreases rs.fields@.len() - i,
    {
        let fs = &rs.fields[i];
        let ghost idx_b = r.index as int;
        let ghost of_b = option_failed;
        proof {
            if record_no_overrides(*rs) {
                assert(field_no_overrides(rs.fields@[i as int]));
            }
            if record_overrides_only(*rs) {
                assert(field_overrides_only(rs.fields@[i as int]));
            }
            if forall|j: int|
                0 <= j < rs.fields@.len() ==> (#[trigger] rs.fields@[j]).attributes.ignore {
                assert(rs.fields@[i as int].attributes.ignore);
            }
            if is_text_record(*rs) {
                assert(is_text_field(rs.fields@[i as int]));
                assert(attrs_pass(rs.fields@[i as int].attributes, r.mv()));
            }
        }
        match field_step(fs, rs.attributes.cascade, r, option_failed, &mut log) {
            FieldOutcome::Resolved { value, option_failed: nf } => {
                proof {
                    if is_text_record(*rs) {
                        let f = rs.fields@[i as int];
                        let stepped = spec_text_step(f, old(r).input@, idx_b);
                        let appended: Seq<char> = if !f.attributes.ignore && !(spec_is_optional(f)
                            && spec_in_cascade(rs.attributes.cascade, f) && of_b) {
                            match stepped {
                                Some(tv) => tv.0,
                                None => Seq::empty(),
                            }
                        } else {
                            Seq::empty()
                        };
                        assert(match value {
                            Value::Text(tx) => tx@.len() == 0 ==> tx@ =~= Seq::<char>::empty(),
                            _ => true,
                        });
                        let before = spec_text_record_parse(
                            rs.fields@,
                            old(r).input@,
                            i as int,
                            idx_b,
                            of_b,
                            rs.attributes.cascade,
                        );
                        let after = spec_text_record_parse(
                            rs.fields@,
                            old(r).input@,
                            i + 1,
                            r.index as int,
                            nf,
                            rs.attributes.cascade,
                        );
                        assert(before == match after {
                            Some(rest) => Some::<(Seq<Seq<char>>, int)>(
                                (seq![appended] + rest.0, rest.1),
                            ),
                            None => None,
                        });
                        if let Some(rest) = after {
                            assert(texts + (seq![appended] + rest.0) =~= (texts + seq![appended])
                                + rest.0);
                        }
                        texts = texts + seq![appended];
                    }
                }
                values.push(value);
                option_failed = nf;
            },
            FieldOutcome::Aborted => {
                scope_unwind(r, &log);
                scope_retract(r, &root_handles);
                proof {
                    if record_no_overrides(*rs) {
                        assert(push_declares(mv0, decl_names).take(mv0.len() as int) =~= mv0);
                    }
                }
                r.set_index(start);
                return None;
            },
        }
        i += 1;
    }
    scope_retract(r, &root_handles);
    proof {
        if record_no_overrides(*rs) {
            assert(push_declares(mv0, decl_names).take(mv0.len() as int) =~= mv0);
        }
        if is_text_record(*rs) {
            assert(texts + Seq::<Seq<char>>::empty() =~= texts);
        }
    }
    let location = if rs.attributes.located {
        Some(r.get_item_location(start))
    } else {
        None
    };
    Some(Value::Record(RecordValue { fields: values, location }))
}

/// Parses a union: its variants are tried in declaration order, first match
/// wins. A failed variant attempt restores the cursor to the union's start,
/// restores its marker overrides in reverse order, and retracts its declared
/// markers, so the next variant starts from the union's own initial state; a
/// successful variant's overrides persist. For a union of unit variants the
/// result is exactly the first declared variant whose marker test passes and
/// whose literal token occurs at the cursor, and a failed parse leaves the
/// marker table untouched.
#[verifier::loop_isolation(false)]
#[verifier::rlimit(60)]
pub fn parse_union(us: &UnionSchema, r: &mut Reader) -> (out: Option<Value>)
    requires
        old(r).wf(),
    ensures
        final(r).wf(),
        final(r).input@ == old(r).input@,
        out is None ==> final(r).index == old(r).index,
        out is Some ==> old(r).index <= final(r).index,
        out matches Some(v) ==> value_wf(Schema::Union(*us), v),
        union_no_overrides(*us) ==> final(r).mv() == old(r).mv(),
        all_unit_variants(*us) && out is None ==> final(r).mv() == old(r).mv() && (forall|j: int|
            0 <= j < us.variants@.len() ==> !unit_variant_matches(
                *us,
                j,
                old(r).input@,
                old(r).index as int,
                old(r).mv(),
            )),
        union_no_overrides(*us) ==> (out matches Some(v) ==> (v matches Value::Variant(k, vals)
            ==> attrs_pass(us.variants@[k as int].attributes, old(r).mv()))),
        out matches Some(v) ==> (v matches Value::Variant(k, vals) ==> (us.variants@[k as int].fields@.len()
            > 0 ==> (match us.variants@[k as int].attributes.prefix {
            Some(pre) => spec_starts_with(old(r).input@, old(r).index as int, pre@),
            None => true,
        }))),
        all_unit_variants(*us) ==> (out matches Some(v) ==> v matches Value::Variant(k, vals)
            && (us.variants@[k as int].token matches Some(tok) && final(r).index
            == spec_skip_spaces(old(r).input@, old(r).index + tok@.len()))
            && (us.variants@[k as int].attributes.declared_markers@.len() == 0 ==> final(r).mv()
            == scope_markers(
            old(r).mv(),
            names_view(us.variants@[k as int].attributes.declared_markers@),
            names_view(us.variants@[k as int].attributes.set_markers@),
            names_view(us.variants@[k as int].attributes.unset_markers@),
        )) && {
            &&& vals@.len() == 0
            &&& unit_variant_matches(*us, k as int, old(r).input@, old(r).index as int, old(r).mv())
            &&& forall|j: int|
                0 <= j < k ==> !unit_variant_matches(
                    *us,
                    j,
                    old(r).input@,
                    old(r).index as int,
                    old(r).mv(),
                )
        }),
    decreases us,
{
    let start = r.get_index();
    let ghost mv0 = r.mv();
    let has_name = us.attributes.name.is_some();
    let mut k: usize = 0;
    while k < us.variants.len()
        invariant
            r.wf(),
            r.input@ == old(r).input@,
            r.index == start,
            start == old(r).index,
            0 <= k <= us.variants@.len(),
            union_no_overrides(*us) ==> r.mv() == mv0,
            all_unit_variants(*us) ==> r.mv() == mv0,
            all_unit_variants(*us) ==> forall|j: int|
                0 <= j < k ==> !unit_variant_matches(*us, j, old(r).input@, start as int, mv0),
        decreases us.variants@.len() - k,
    {
        let v = &us.variants[k];
        let passes = pass_marker_test(r, &v.attributes);
        if passes {
            let ghost mvk = r.mv();
            let ghost decl_names = names_view(v.attributes.declared_markers@);
            let mut vlog = ScopeLog::new();
            let handles = scope_enter(
                r,
                &v.attributes.declared_markers,
                &v.attributes.set_markers,
                &v.attributes.unset_markers,
                &mut vlog,
            );
            if v.fields.len() == 0 {
                let mut matched = false;
                if let Some(tok) = &v.token {
                    if r.read_string(tok.as_str()) {
                        matched = true;
                    } else if !has_name {
                        r.set_expected_string(tok.as_str());
                    }
                }
                if matched {
                    r.eat_spaces();
                    scope_retract(r, &handles);
                    return Some(Value::Variant(k, Vec::new()));
                }
                scope_unwind(r, &vlog);
                scope_retract(r, &handles);
                proof {
                    assert(push_declares(mvk, decl_names).take(mvk.len() as int) =~= mvk);
                }
            } else {
                let mut prefix_ok = true;
                if let Some(prefix) = &v.attributes.prefix {
                    if r.read_string(prefix.as_str()) {
                        if space_flag(v.attributes.consume_spaces_after_prefix) {
                            r.eat_spaces();
                        }
                    } else {
                        r.set_expected_string(prefix.as_str());
                        prefix_ok = false;
                    }
                }
                if prefix_ok {
                    let mut vals: Vec<Value> = Vec::new();
                    let mut all_parsed = true;
                    let mut j: usize = 0;
                    while j < v.fields.len()
                        invariant
                            r.wf(),
                            r.input@ == old(r).input@,
                            start <= r.index,
                            0 <= j <= v.fields@.len(),
                            vals@.len() == j,
                            all_parsed,
                            forall|t: int|
                                0 <= t < j ==> value_wf(#[trigger] v.fields@[t], vals@[t]),
                            variant_no_overrides(us.variants@[k as int]) ==> r.mv()
                                == push_declares(mvk, decl_names) && vlog.entries@.len() == 0,
                        decreases v.fields@.len() - j,
                    {
                        proof {
                            if variant_no_overrides(us.variants@[k as int]) {
                                assert(schema_no_overrides(v.fields@[j as int]));
                            }
                        }
                        match parse_schema(&v.fields[j], r) {
                            Some(val) => {
                                vals.push(val);
                                if space_flag(v.attributes.consume_spaces) {
                                    r.eat_spaces();
                                }
                                j += 1;
                            },
                            None => {
                                all_parsed = false;
                                break;
                            },
                        }
                    }
                    if all_parsed && vals.len() == v.fields.len() {
                        let suffix_ok = match &v.attributes.suffix {
                            Some(sfx) => {
                                if r.read_string(sfx.as_str()) {
                                    if space_flag(v.attributes.consume_spaces_after_suffix) {
                                        r.eat_spaces();
                                    }
                                    true
                                } else {
                                    r.set_expected_string(sfx.as_str());
                                    false
                                }
                            },
                            None => true,
                        };
                        if suffix_ok {
                            scope_retract(r, &handles);
                            return Some(Value::Variant(k, vals));
                        }
                    }
                }
                r.set_index(start);
                scope_unwind(r, &vlog);
                scope_retract(r, &handles);
                proof {
                    if union_no_overrides(*us) {
                        assert(push_declares(mvk, decl_names).take(mvk.len() as int) =~= mvk);
                    }
                }
            }
        }
        k += 1;
    }
    None
}

/// Parses one schema at the cursor: a literal token, a pattern, a record, or a
/// union. On failure no input is consumed; on success the cursor has advanced
/// past exactly the consumed span.
#[verifier::loop_isolation(false)]
pub fn parse_schema(s: &Schema, r: &mut Reader) -> (out: Option<Value>)
    requires
        old(r).wf(),
    ensures
        final(r).wf(),
        final(r).input@ == old(r).input@,
        out is None ==> final(r).index == old(r).index,
        out is Some ==> old(r).index <= final(r).index,
        out matches Some(v) ==> value_wf(*s, v),
        schema_no_overrides(*s) ==> final(r).mv() == old(r).mv(),
        s matches Schema::Token(lit) ==> {
            &&& (out is Some <==> crate::reader::spec_starts_with(
                old(r).input@,
                old(r).index as int,
                lit@,
            ))
            &&& (out matches Some(v) ==> v matches Value::Text(t) && t@ == lit@ && final(r).index
                == old(r).index + lit@.len())
        },
        s matches Schema::Pattern(p) ==> match crate::pattern::pattern_prefix_len(
            p@,
            old(r).input@.skip(old(r).index as int),
        ) {
            Some(n) => out matches Some(v) && v matches Value::Text(t) && t@
                == old(r).input@.subrange(old(r).index as int, old(r).index + n) && final(r).index
                == old(r).index + n,
            None => out is None,
        },
        out is Some && (s is Token || s is Pattern) ==> final(r).ev() == old(r).ev() && final(r).expected_index == old(r).expected_index,
        s matches Schema::Token(lit) ==> (out is None ==> (
        final(r).expected_index as int,
        final(r).ev(),
        ) == crate::reader::spec_record_expected(
            old(r).index as int,
            old(r).expected_index as int,
            old(r).ev(),
            crate::reader::ExpectedV {
                kind: crate::reader::ExpectedKind::Token,
                text: lit@,
            },
        )),
        s matches Schema::Pattern(p) ==> (out is None ==> (
        final(r).expected_index as int,
        final(r).ev(),
        ) == crate::reader::spec_record_expected(
            old(r).index as int,
            old(r).expected_index as int,
            old(r).ev(),
            crate::reader::ExpectedV {
                kind: crate::reader::ExpectedKind::Pattern,
                text: p@,
            },
        )),
    decreases s,
{
    match s {
        Schema::Token(lit) => {
            if r.read_string(lit.as_str()) {
                Some(Value::Text(lit.clone()))
            } else {
                r.set_expected_string(lit.as_str());
                None
            }
        },
        Schema::Pattern(pat) => {
            match r.read_regex(pat.as_str()) {
                Some(t) => Some(Value::Text(t)),
                None => {
                    r.set_expected_regex(pat.as_str());
                    None
                },
            }
        },
        Schema::Record(rs) => parse_record(rs, r),
        Schema::Union(us) => parse_union(us, r),
    }
}

impl Schema {
    /// Attempts this schema at the cursor: the caller-facing entry of a
    /// compiled parser. On failure the cursor is exactly where it was; on
    /// success it has advanced past the consumed span.
    pub fn parse(&self, r: &mut Reader) -> (out: Option<Value>)
        requires
            old(r).wf(),
        ensures
            final(r).wf(),
            final(r).input@ == old(r).input@,
            out is None ==> final(r).index == old(r).index,
            out is Some ==> old(r).index <= final(r).index,
            out matches Some(v) ==> value_wf(*self, v),
            schema_no_overrides(*self) ==> final(r).mv() == old(r).mv(),
    {
        parse_schema(self, r)
    }

    /// The name this schema reports in diagnostics.
    pub fn get_item_name(&self) -> (r: String)
        ensures
            r@ == crate::schema::spec_item_name(*self),
    {
        match self {
            Schema::Token(lit) => crate::schema::quote_string(lit.as_str()),
            Schema::Pattern(p) => p.clone(),
            Schema::Record(rs) => rs.get_item_name(),
            Schema::Union(us) => us.get_item_name(),
        }
    }
}

} // verus!
