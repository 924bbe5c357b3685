//! The character-stream cursor: index save/restore for backtracking, literal
//! and pattern matching, space skipping, the marker table, and diagnostic
//! expectation recording.

use vstd::prelude::*;

use crate::location::ItemLocation;
use crate::markers::{
    lemma_marker_top_at, lemma_marker_top_below, lemma_marker_top_bounds, marker_get, marker_prev,
    marker_restore, marker_set, marker_top, markers_view, MarkerEntry, MarkerSeq,
};
use crate::pattern::{chars_to_string, pattern_prefix_len, regex_prefix_len};

verus! {

/// One recorded expectation: what would have had to appear at the furthest
/// position the parse reached.
#[derive(Debug, Clone, PartialEq, Eq)]
pub enum Expected {
    /// A literal token was expected.
    Token(String),
    /// A pattern match was expected.
    Pattern(String),
    /// A named item was expected.
    Item(String),
}

/// The kind of a recorded expectation, for specifications.
pub enum ExpectedKind {
    Token,
    Pattern,
    Item,
}

/// The mathematical model of one expectation.
pub struct ExpectedV {
    pub kind: ExpectedKind,
    pub text: Seq<char>,
}

/// The view of the recorded expectations.
pub open spec fn expected_view(s: Seq<Expected>) -> Seq<ExpectedV> {
    s.map(
        |i: int, e: Expected|
            match e {
                Expected::Token(t) => ExpectedV { kind: ExpectedKind::Token, text: t@ },
                Expected::Pattern(t) => ExpectedV { kind: ExpectedKind::Pattern, text: t@ },
                Expected::Item(t) => ExpectedV { kind: ExpectedKind::Item, text: t@ },
            },
    )
}

/// How recording one expectation changes the diagnostic state: an expectation
/// at a position beyond the furthest one seen replaces the list; one at the
/// same position joins it; one at an earlier position is discarded.
pub open spec fn spec_record_expected(
    index: int,
    expected_index: int,
    expected: Seq<ExpectedV>,
    item: ExpectedV,
) -> (int, Seq<ExpectedV>) {
    if index > expected_index {
        (index, seq![item])
    } else if index == expected_index {
        (expected_index, expected.push(item))
    } else {
        (expected_index, expected)
    }
}

/// `lit` occurs in `input` starting exactly at `index`.
pub open spec fn spec_starts_with(input: Seq<char>, index: int, lit: Seq<char>) -> bool {
    &&& 0 <= index
    &&& index + lit.len() <= input.len()
    &&& forall|j: int| 0 <= j < lit.len() ==> input[index + j] == lit[j]
}

/// The characters the cursor skips when eating spaces.
pub open spec fn is_space(c: char) -> bool {
    c == ' ' || c == '\t' || c == '\n' || c == '\r'
}

/// The first position at or past `i` that does not hold whitespace: where the
/// cursor stands after skipping spaces.
pub open spec fn spec_skip_spaces(input: Seq<char>, i: int) -> int
    decreases input.len() - i,
{
    if i < input.len() && is_space(input[i]) {
        spec_skip_spaces(input, i + 1)
    } else {
        i
    }
}

/// A stretch of whitespace from `i` up to a non-space (or the end) pins the
/// skip position exactly.
pub proof fn lemma_skip_spaces_pins(input: Seq<char>, i: int, j: int)
    requires
        0 <= i <= j <= input.len(),
        forall|k: int| i <= k < j ==> is_space(input[k]),
        j == input.len() || !is_space(input[j]),
    ensures
        spec_skip_spaces(input, i) == j,
    decreases j - i,
{
    if i < j {
        assert(is_space(input[i]));
        lemma_skip_spaces_pins(input, i + 1, j);
    }
}

pub(crate) fn is_space_char(c: char) -> (r: bool)
    ensures
        r == is_space(c),
{
    c == ' ' || c == '\t' || c == '\n' || c == '\r'
}

/// Compares two string slices character by character.
pub(crate) fn str_eq(a: &str, b: &str) -> (r: bool)
    ensures
        r == (a@ == b@),
{
    let na = a.unicode_len();
    let nb = b.unicode_len();
    if na != nb {
        proof {
            assert(a@ != b@);
        }
        return false;
    }
    let mut j: usize = 0;
    while j < na
        invariant
            na == a@.len(),
            na == b@.len(),
            0 <= j <= na,
            forall|k: int| 0 <= k < j ==> a@[k] == b@[k],
        decreases na - j,
    {
        if a.get_char(j) != b.get_char(j) {
            return false;
        }
        j += 1;
    }
    proof {
        assert(a@ =~= b@);
    }
    true
}

/// Copies `v[from..to]` into a fresh vector.
pub(crate) fn sub_chars(v: &Vec<char>, from: usize, to: usize) -> (r: Vec<char>)
    requires
        from <= to <= v@.len(),
    ensures
        r@ == v@.subrange(from as int, to as int),
{
    let mut r: Vec<char> = Vec::new();
    let mut j: usize = from;
    while j < to
        invariant
            from <= j <= to <= v@.len(),
            r@ == v@.subrange(from as int, j as int),
        decreases to - j,
    {
        r.push(v[j]);
        proof {
            assert(r@ =~= v@.subrange(from as int, j + 1 as int));
        }
        j += 1;
    }
    r
}

/// The cursor over the character stream, together with the marker table and
/// the expectation diagnostics. It is the single mutable resource a parse
/// attempt owns; backtracking restores its index explicitly.
pub struct Reader {
    pub input: Vec<char>,
    pub index: usize,
    pub markers: Vec<MarkerEntry>,
    pub expected_index: usize,
    pub expected: Vec<Expected>,
}

impl Reader {
    /// The cursor stands inside its input.
    pub open spec fn wf(&self) -> bool {
        self.index <= self.input@.len()
    }

    /// The view of the marker table.
    pub open spec fn mv(&self) -> MarkerSeq {
        markers_view(self.markers@)
    }

    /// The view of the expectation list.
    pub open spec fn ev(&self) -> Seq<ExpectedV> {
        expected_view(self.expected@)
    }

    /// All state but the cursor index is unchanged.
    pub open spec fn same_except_index(&self, other: &Reader) -> bool {
        &&& self.input@ == other.input@
        &&& self.mv() == other.mv()
        &&& self.expected_index == other.expected_index
        &&& self.ev() == other.ev()
    }

    /// All state but the marker table is unchanged.
    pub open spec fn same_except_markers(&self, other: &Reader) -> bool {
        &&& self.input@ == other.input@
        &&& self.index == other.index
        &&& self.expected_index == other.expected_index
        &&& self.ev() == other.ev()
    }

    /// All state but the expectation diagnostics is unchanged.
    pub open spec fn same_except_expected(&self, other: &Reader) -> bool {
        &&& self.input@ == other.input@
        &&& self.index == other.index
        &&& self.mv() == other.mv()
    }

    pub fn new(input: Vec<char>) -> (r: Reader)
        ensures
            r.input@ == input@,
            r.index == 0,
            r.mv() == Seq::<(Seq<char>, bool)>::empty(),
            r.ev() == Seq::<ExpectedV>::empty(),
            r.expected_index == 0,
            r.wf(),
    {
        let r = Reader {
            input,
            index: 0,
            markers: Vec::new(),
            expected_index: 0,
            expected: Vec::new(),
        };
        proof {
            assert(r.mv() =~= Seq::<(Seq<char>, bool)>::empty());
            assert(r.ev() =~= Seq::<ExpectedV>::empty());
        }
        r
    }

    /// Builds a cursor over the characters of a string slice.
    pub fn from_text(text: &str) -> (r: Reader)
        ensures
            r.input@ == text@,
            r.index == 0,
            r.mv() == Seq::<(Seq<char>, bool)>::empty(),
            r.ev() == Seq::<ExpectedV>::empty(),
            r.expected_index == 0,
            r.wf(),
    {
        let n = text.unicode_len();
        let mut v: Vec<char> = Vec::new();
        let mut j: usize = 0;
        while j < n
            invariant
                n == text@.len(),
                0 <= j <= n,
                v@ == text@.subrange(0, j as int),
            decreases n - j,
        {
            v.push(text.get_char(j));
            proof {
                assert(v@ =~= text@.subrange(0, j + 1 as int));
            }
            j += 1;
        }
        proof {
            assert(v@ =~= text@);
        }
        Reader::new(v)
    }

    /// The current cursor position, saved by attempts so they can backtrack.
    pub fn get_index(&self) -> (r: usize)
        ensures
            r == self.index,
    {
        self.index
    }

    /// Restores a previously saved cursor position.
    pub fn set_index(&mut self, i: usize)
        requires
            i <= old(self).input@.len(),
        ensures
            final(self).index == i,
            final(self).same_except_index(old(self)),
            final(self).wf(),
    {
        self.index = i;
    }

    /// Consumes `lit` if the input continues with it here; otherwise leaves
    /// the cursor untouched.
    pub fn read_string(&mut self, lit: &str) -> (ok: bool)
        requires
            old(self).wf(),
        ensures
            final(self).wf(),
            ok == spec_starts_with(old(self).input@, old(self).index as int, lit@),
            final(self).same_except_index(old(self)),
            ok ==> final(self).index == old(self).index + lit@.len(),
            !ok ==> final(self).index == old(self).index,
    {
        let n = lit.unicode_len();
        if n > self.input.len() - self.index {
            proof {
                assert(!spec_starts_with(self.input@, self.index as int, lit@));
            }
            return false;
        }
        let mut j: usize = 0;
        while j < n
            invariant
                self.wf(),
                n == lit@.len(),
                self.index + n <= self.input@.len(),
                self.input@.len() <= usize::MAX,
                0 <= j <= n,
                forall|k: int| 0 <= k < j ==> self.input@[self.index + k] == lit@[k],
        decreases n - j,
        {
            if self.input[self.index + j] != lit.get_char(j) {
                proof {
                    assert(!spec_starts_with(self.input@, self.index as int, lit@));
                }
                return false;
            }
            j += 1;
        }
        self.index = self.index + n;
        true
    }

    /// Skips whitespace.
    pub fn eat_spaces(&mut self)
        requires
            old(self).wf(),
        ensures
            final(self).wf(),
            final(self).same_except_index(old(self)),
            old(self).index <= final(self).index <= final(self).input@.len(),
            forall|j: int|
                old(self).index <= j < final(self).index ==> is_space(final(self).input@[j]),
            final(self).index < final(self).input@.len() ==> !is_space(
                final(self).input@[final(self).index as int],
            ),
            final(self).index == spec_skip_spaces(old(self).input@, old(self).index as int),
    {
        while self.index < self.input.len() && is_space_char(self.input[self.index])
            invariant
                self.wf(),
                self.same_except_index(&*old(self)),
                old(self).index <= self.index <= self.input@.len(),
                forall|j: int| old(self).index <= j < self.index ==> is_space(self.input@[j]),
            decreases self.input@.len() - self.index,
        {
            self.index = self.index + 1;
        }
        proof {
            lemma_skip_spaces_pins(self.input@, old(self).index as int, self.index as int);
        }
    }

    /// Whether `pattern` matches at the cursor, without consuming anything.
    pub fn peek_regex(&self, pattern: &str) -> (r: bool)
        requires
            self.wf(),
        ensures
            r == (pattern_prefix_len(pattern@, self.input@.skip(self.index as int)) is Some),
    {
        let tail = sub_chars(&self.input, self.index, self.input.len());
        proof {
            assert(tail@ =~= self.input@.skip(self.index as int));
        }
        regex_prefix_len(pattern, &tail).is_some()
    }

    /// Consumes the anchored match of `pattern` at the cursor and returns the
    /// matched text; leaves the cursor untouched when the pattern does not
    /// match here.
    pub fn read_regex(&mut self, pattern: &str) -> (r: Option<String>)
        requires
            old(self).wf(),
        ensures
            final(self).wf(),
            final(self).same_except_index(old(self)),
            match pattern_prefix_len(pattern@, old(self).input@.skip(old(self).index as int)) {
                Some(n) => {
                    &&& r matches Some(text) && text@ == old(self).input@.subrange(
                        old(self).index as int,
                        old(self).index + n,
                    )
                    &&& final(self).index == old(self).index + n
                },
                None => r is None && final(self).index == old(self).index,
            },
    {
        let tail = sub_chars(&self.input, self.index, self.input.len());
        proof {
            assert(tail@ =~= self.input@.skip(self.index as int));
        }
        match regex_prefix_len(pattern, &tail) {
            Some(n) => {
                let consumed = sub_chars(&self.input, self.index, self.index + n);
                let text = chars_to_string(&consumed);
                self.index = self.index + n;
                Some(text)
            },
            None => None,
        }
    }

    /// The current value of a marker: `false` when it was never declared or
    /// set.
    pub fn get_marker(&self, name: &str) -> (r: bool)
        ensures
            r == marker_get(self.mv(), name@),
    {
        let mut i: usize = self.markers.len();
        while i > 0
            invariant
                i <= self.markers@.len(),
                forall|j: int| i <= j < self.mv().len() ==> self.mv()[j].0 != name@,
            decreases i,
        {
            i = i - 1;
            if str_eq(self.markers[i].name.as_str(), name) {
                proof {
                    lemma_marker_top_at(self.mv(), name@, i as int);
                }
                return self.markers[i].value;
            }
        }
        proof {
            lemma_marker_top_below(self.mv(), name@, 0);
        }
        false
    }

    /// Overrides a marker's value and returns the previous one (`None` when
    /// the name was absent and a fresh entry was pushed), so a failed attempt
    /// can restore it.
    #[verifier::loop_isolation(false)]
    pub fn set_marker(&mut self, name: &str, value: bool) -> (prev: Option<bool>)
        ensures
            final(self).mv() == marker_set(old(self).mv(), name@, value),
            prev == marker_prev(old(self).mv(), name@),
            final(self).same_except_markers(old(self)),
            final(self).wf() == old(self).wf(),
    {
        let ghost mv0 = self.mv();
        let ghost ms0 = self.markers@;
        let mut i: usize = self.markers.len();
        while i > 0
            invariant
                i <= self.markers@.len(),
                self.markers@ == ms0,
                self == old(self),
                forall|j: int| i <= j < self.mv().len() ==> self.mv()[j].0 != name@,
            decreases i,
        {
            i = i - 1;
            if str_eq(self.markers[i].name.as_str(), name) {
                proof {
                    lemma_marker_top_at(self.mv(), name@, i as int);
                }
                let p = self.markers[i].value;
                self.markers[i].value = value;
                proof {
                    assert(self.markers@ == ms0.update(
                        i as int,
                        MarkerEntry { name: ms0[i as int].name, value },
                    ));
                    assert(self.markers@[i as int].name@ == name@);
                    assert(marker_top(mv0, name@) == i as int);
                    assert forall|j: int| 0 <= j < self.mv().len() implies self.mv()[j]
                        == marker_set(mv0, name@, value)[j] by {
                        if j != i as int {
                            assert(self.markers@[j] == ms0[j]);
                        }
                    }
                    assert(self.mv() =~= marker_set(mv0, name@, value));
                }
                return Some(p);
            }
        }
        proof {
            lemma_marker_top_below(self.mv(), name@, 0);
        }
        self.markers.push(MarkerEntry { name: name.to_owned(), value });
        proof {
            assert(self.markers@ == ms0.push(self.markers@[ms0.len() as int]));
            assert(self.markers@[ms0.len() as int].name@ == name@);
            assert forall|j: int| 0 <= j < self.mv().len() implies self.mv()[j]
                == marker_set(mv0, name@, value)[j] by {
                if j < ms0.len() {
                    assert(self.markers@[j] == ms0[j]);
                }
            }
            assert(self.mv() =~= marker_set(mv0, name@, value));
        }
        None
    }

    /// Reinstates a marker's previous value, undoing one override.
    #[verifier::loop_isolation(false)]
    pub fn restore_marker(&mut self, name: &str, prev: Option<bool>)
        ensures
            final(self).mv() == marker_restore(old(self).mv(), name@, prev),
            final(self).same_except_markers(old(self)),
            final(self).wf() == old(self).wf(),
    {
        let ghost mv0 = self.mv();
        match prev {
            Some(v) => {
                let _ = self.set_marker(name, v);
            },
            None => {
                let ghost ms0 = self.markers@;
                let mut i: usize = self.markers.len();
                while i > 0
                    invariant
                        i <= self.markers@.len(),
                        self.markers@ == ms0,
                        self == old(self),
                        forall|j: int| i <= j < self.mv().len() ==> self.mv()[j].0 != name@,
                    decreases i,
                {
                    i = i - 1;
                    if str_eq(self.markers[i].name.as_str(), name) {
                        proof {
                            lemma_marker_top_at(self.mv(), name@, i as int);
                        }
                        let _ = self.markers.remove(i);
                        proof {
                            assert(self.markers@ == ms0.remove(i as int));
                            assert(marker_top(mv0, name@) == i as int);
                            assert forall|j: int| 0 <= j < self.mv().len() implies self.mv()[j]
                                == mv0.remove(i as int)[j] by {
                                assert(self.markers@[j] == ms0.remove(i as int)[j]);
                            }
                            assert(self.mv() =~= mv0.remove(i as int));
                        }
                        return;
                    }
                }
                proof {
                    lemma_marker_top_below(self.mv(), name@, 0);
                }
            },
        }
    }

    /// Declares a fresh marker (initially `false`) that shadows outer entries
    /// of the same name; returns the handle used to retract it on exit.
    pub fn declare_marker(&mut self, name: &str) -> (h: usize)
        ensures
            final(self).mv() == old(self).mv().push((name@, false)),
            h == old(self).mv().len(),
            final(self).same_except_markers(old(self)),
            final(self).wf() == old(self).wf(),
    {
        let ghost mv0 = self.mv();
        let h = self.markers.len();
        self.markers.push(MarkerEntry { name: name.to_owned(), value: false });
        proof {
            assert(self.mv() =~= mv0.push((name@, false)));
        }
        h
    }

    /// Retracts a declared marker. A handle that no longer names an entry is
    /// ignored.
    pub fn remove_marker(&mut self, h: usize)
        ensures
            final(self).mv() == if h < old(self).mv().len() {
                old(self).mv().remove(h as int)
            } else {
                old(self).mv()
            },
            final(self).same_except_markers(old(self)),
            final(self).wf() == old(self).wf(),
    {
        let ghost mv0 = self.mv();
        if h < self.markers.len() {
            let _ = self.markers.remove(h);
            proof {
                assert(self.mv() =~= mv0.remove(h as int));
            }
        }
    }

    fn record_expected(&mut self, e: Expected)
        ensures
            (final(self).expected_index as int, final(self).ev()) == spec_record_expected(
                old(self).index as int,
                old(self).expected_index as int,
                old(self).ev(),
                expected_view(seq![e])[0],
            ),
            final(self).same_except_expected(old(self)),
            final(self).wf() == old(self).wf(),
    {
        let ghost item = expected_view(seq![e])[0];
        if self.index > self.expected_index {
            self.expected.clear();
            self.expected.push(e);
            self.expected_index = self.index;
            proof {
                assert(self.ev() =~= seq![item]);
            }
        } else if self.index == self.expected_index {
            let ghost ev0 = self.ev();
            self.expected.push(e);
            proof {
                assert(self.ev() =~= ev0.push(item));
            }
        }
    }

    /// Records that a literal token was expected at the cursor.
    pub fn set_expected_string(&mut self, lit: &str)
        ensures
            (final(self).expected_index as int, final(self).ev()) == spec_record_expected(
                old(self).index as int,
                old(self).expected_index as int,
                old(self).ev(),
                ExpectedV { kind: ExpectedKind::Token, text: lit@ },
            ),
            final(self).same_except_expected(old(self)),
            final(self).wf() == old(self).wf(),
    {
        self.record_expected(Expected::Token(lit.to_owned()));
    }

    /// Records that a pattern match was expected at the cursor.
    pub fn set_expected_regex(&mut self, pattern: &str)
        ensures
            (final(self).expected_index as int, final(self).ev()) == spec_record_expected(
                old(self).index as int,
                old(self).expected_index as int,
                old(self).ev(),
                ExpectedV { kind: ExpectedKind::Pattern, text: pattern@ },
            ),
            final(self).same_except_expected(old(self)),
            final(self).wf() == old(self).wf(),
    {
        self.record_expected(Expected::Pattern(pattern.to_owned()));
    }

    /// Records that a named item was expected at the cursor.
    pub fn set_expected_item(&mut self, name: &str)
        ensures
            (final(self).expected_index as int, final(self).ev()) == spec_record_expected(
                old(self).index as int,
                old(self).expected_index as int,
                old(self).ev(),
                ExpectedV { kind: ExpectedKind::Item, text: name@ },
            ),
            final(self).same_except_expected(old(self)),
            final(self).wf() == old(self).wf(),
    {
        self.record_expected(Expected::Item(name.to_owned()));
    }

    /// The span from a saved start index to the cursor.
    pub fn get_item_location(&self, start: usize) -> (r: ItemLocation)
        ensures
            r.start == start,
            r.end == self.index,
    {
        ItemLocation { start, end: self.index }
    }
}

} // verus!
