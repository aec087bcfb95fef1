use vstd::prelude::*;
use crate::diagnostics::{
    clone_string_vec, diag_le, diag_le_exec, diag_le_vw, lemma_diag_le_total, lemma_diag_le_trans,
    lemma_sorted_vw_unique, vw_sorted, Diagnostic, DiagnosticVw,
};
use crate::location::Comment;
use hydroper_source_text::SourceText;

verus! {

broadcast use vstd::seq_lib::group_to_multiset_ensures;

#[verifier::external_type_specification]
#[verifier::external_body]
pub struct ExSourceText(SourceText);

/// The characters a `SourceText` holds.
pub uninterp spec fn source_text_chars(st: SourceText) -> Seq<char>;

/// One-based line number at a byte offset of the text's UTF-8 encoding.
pub uninterp spec fn line_number_at(text: Seq<char>, offset: usize) -> usize;

/// Byte offset of the start of a one-based line of the text, if the line
/// exists.
pub uninterp spec fn line_offset_of(text: Seq<char>, line: usize) -> Option<usize>;

/// Byte offset of the start of the line that a byte offset falls on.
pub uninterp spec fn line_offset_at(text: Seq<char>, offset: usize) -> usize;

/// Zero-based column (in characters) of a byte offset.
pub uninterp spec fn column_at(text: Seq<char>, offset: usize) -> usize;

/// Number of bytes of the UTF-8 encoding of one character.
pub open spec fn char_utf8_len(c: char) -> int {
    if c as u32 <= 0x7f {
        1
    } else if c as u32 <= 0x7ff {
        2
    } else if c as u32 <= 0xffff {
        3
    } else {
        4
    }
}

/// Number of bytes of the UTF-8 encoding of `text`.
pub open spec fn text_byte_len(text: Seq<char>) -> int
    decreases text.len(),
{
    if text.len() == 0 {
        0
    } else {
        char_utf8_len(text[0]) + text_byte_len(text.skip(1))
    }
}

/// Whether `offset` lies on a character boundary of the UTF-8 encoding of
/// `text`; the end of the text counts as a boundary.
pub open spec fn char_boundary(text: Seq<char>, offset: usize) -> bool {
    exists|i: int| 0 <= i <= text.len() && offset == text_byte_len(#[trigger] text.take(i))
}

/// Relies on hydroper_source_text::SourceText::new: the value holds
/// exactly the text it was constructed with.
#[verifier::external_body]
fn source_text_new(contents: String) -> (st: SourceText)
    ensures
        source_text_chars(st) == contents@,
{
    SourceText::new(contents)
}

/// Relies on the public `contents` field of
/// hydroper_source_text::SourceText, which holds the text the value was
/// constructed with.
#[verifier::external_body]
fn source_text_contents<'a>(st: &'a SourceText) -> (r: &'a String)
    ensures
        r@ == source_text_chars(*st),
{
    &st.contents
}

/// Relies on hydroper_source_text::SourceText::get_line_number: the
/// one-based line number at a byte offset, a function of the text and the
/// offset alone.
#[verifier::external_body]
fn source_text_line_number(st: &SourceText, offset: usize) -> (r: usize)
    ensures
        r == line_number_at(source_text_chars(*st), offset),
{
    st.get_line_number(offset)
}

/// Relies on hydroper_source_text::SourceText::get_line_offset: the byte
/// offset a one-based line starts at, or `None` past the last line; a
/// function of the text and the line alone.
#[verifier::external_body]
fn source_text_line_offset(st: &SourceText, line: usize) -> (r: Option<usize>)
    ensures
        r == line_offset_of(source_text_chars(*st), line),
{
    st.get_line_offset(line)
}

/// Relies on hydroper_source_text::SourceText::get_line_offset_from_offset:
/// the byte offset of the start of the line a byte offset falls on, a
/// function of the text and the offset alone.
#[verifier::external_body]
fn source_text_line_offset_from_offset(st: &SourceText, offset: usize) -> (r: usize)
    ensures
        r == line_offset_at(source_text_chars(*st), offset),
{
    st.get_line_offset_from_offset(offset)
}

/// Relies on hydroper_source_text::SourceText::get_column: the zero-based
/// column of a byte offset, a function of the text and the offset alone.
/// The call slices the text at `offset`, so the offset must lie on a
/// character boundary.
#[verifier::external_body]
fn source_text_column(st: &SourceText, offset: usize) -> (r: usize)
    requires
        char_boundary(source_text_chars(*st), offset),
    ensures
        r == column_at(source_text_chars(*st), offset),
{
    st.get_column(offset)
}

impl Clone for Comment {
    /// A copy of the comment, equal to it in value.
    fn clone(&self) -> (res: Self)
        ensures
            res.multiline == self.multiline,
            res.content@ == self.content@,
            res.location == self.location,
    {
        Comment {
            multiline: self.multiline,
            content: self.content.clone(),
            location: self.location,
        }
    }
}

/// Whether a sequence of diagnostics is in reporting order.
pub open spec fn diags_sorted(s: Seq<Diagnostic>) -> bool {
    forall|i: int, j: int| 0 <= i < j < s.len() ==> diag_le(#[trigger] s[i], #[trigger] s[j])
}

/// One translation unit: a source text together with the diagnostics,
/// counts, comments and invalidation flag accumulated while parsing and
/// verifying it.
///
/// One verification pass owns a unit at a time, so the accumulated state
/// lives in plain fields mutated through `&mut self`.
pub struct CompilationUnit {
    file_path: Option<String>,
    source_text: SourceText,
    diagnostics: Vec<Diagnostic>,
    error_count: usize,
    warning_count: usize,
    invalidated: bool,
    comments: Vec<Comment>,
}

impl CompilationUnit {
    /// File path of the source, or `None`.
    pub closed spec fn spec_file_path(&self) -> Option<String> {
        self.file_path
    }

    /// The source text's characters.
    pub closed spec fn spec_text(&self) -> Seq<char> {
        source_text_chars(self.source_text)
    }

    /// The recorded diagnostics, in insertion order until sorted.
    pub closed spec fn spec_diagnostics(&self) -> Seq<Diagnostic> {
        self.diagnostics@
    }

    /// The recorded diagnostics as mathematical values.
    pub open spec fn spec_diagnostics_vw(&self) -> Seq<DiagnosticVw> {
        self.spec_diagnostics().map_values(|d: Diagnostic| d@)
    }

    /// How many errors have been recorded.
    pub closed spec fn spec_error_count(&self) -> usize {
        self.error_count
    }

    /// How many warnings have been recorded.
    pub closed spec fn spec_warning_count(&self) -> usize {
        self.warning_count
    }

    /// Whether a non-warning diagnostic has been recorded.
    pub closed spec fn spec_invalidated(&self) -> bool {
        self.invalidated
    }

    /// The collected comments.
    pub closed spec fn spec_comments(&self) -> Seq<Comment> {
        self.comments@
    }

    /// The ledger invariant: every diagnostic is counted exactly once, as
    /// an error or as a warning, and the unit is invalidated exactly when
    /// an error has been recorded.
    pub open spec fn wf(&self) -> bool {
        &&& self.spec_error_count() + self.spec_warning_count() == self.spec_diagnostics().len()
        &&& (self.spec_invalidated() <==> self.spec_error_count() > 0)
    }

    /// Constructs a source file in unparsed and non-verified state.
    pub fn new(file_path: Option<String>, text: String) -> (r: Self)
        ensures
            r.wf(),
            r.spec_file_path() == file_path,
            r.spec_text() == text@,
            r.spec_diagnostics() == Seq::<Diagnostic>::empty(),
            r.spec_error_count() == 0,
            r.spec_warning_count() == 0,
            !r.spec_invalidated(),
            r.spec_comments() == Seq::<Comment>::empty(),
    {
        let r = CompilationUnit {
            file_path,
            source_text: source_text_new(text),
            diagnostics: Vec::new(),
            error_count: 0,
            warning_count: 0,
            invalidated: false,
            comments: Vec::new(),
        };
        assert(r.spec_diagnostics() =~= Seq::<Diagnostic>::empty());
        assert(r.spec_comments() =~= Seq::<Comment>::empty());
        r
    }

    /// File path of the source or `None` if not a file.
    pub fn file_path(&self) -> (r: Option<String>)
        ensures
            r is Some <==> self.spec_file_path() is Some,
            r is Some ==> r->0@ == self.spec_file_path()->0@,
    {
        match &self.file_path {
            Some(p) => Some(p.clone()),
            None => None,
        }
    }

    /// Source text.
    pub fn text<'a>(&'a self) -> (r: &'a String)
        ensures
            r@ == self.spec_text(),
    {
        source_text_contents(&self.source_text)
    }

    /// Whether the source contains any errors after parsing and/or
    /// verification.
    pub fn invalidated(&self) -> (r: bool)
        ensures
            r == self.spec_invalidated(),
    {
        self.invalidated
    }

    /// The comments present in the source file, as a snapshot copy. To get
    /// mutable access to the collection of comments, use the
    /// `comments_mut()` method instead.
    pub fn comments(&self) -> (r: Vec<Comment>)
        ensures
            r@.len() == self.spec_comments().len(),
            forall|i: int| 0 <= i < r@.len() ==> {
                &&& #[trigger] r@[i].multiline == self.spec_comments()[i].multiline
                &&& r@[i].content@ == self.spec_comments()[i].content@
                &&& r@[i].location == self.spec_comments()[i].location
            },
    {
        let mut collection: Vec<Comment> = Vec::new();
        let n = self.comments.len();
        for i in 0..n
            invariant
                n == self.comments@.len(),
                collection@.len() == i,
                forall|t: int| #![trigger collection@[t]] 0 <= t < i ==> {
                    &&& collection@[t].multiline == self.comments@[t].multiline
                    &&& collection@[t].content@ == self.comments@[t].content@
                    &&& collection@[t].location == self.comments@[t].location
                },
        {
            let c = self.comments[i].clone();
            collection.push(c);
        }
        collection
    }

    /// The comments present in the source file, as a mutable collection.
    pub fn comments_mut<'a>(&'a mut self) -> (r: &'a mut Vec<Comment>)
        ensures
            r@ == old(self).spec_comments(),
            final(self).spec_comments() == final(r)@,
            final(self).spec_file_path() == old(self).spec_file_path(),
            final(self).spec_text() == old(self).spec_text(),
            final(self).spec_diagnostics() == old(self).spec_diagnostics(),
            final(self).spec_error_count() == old(self).spec_error_count(),
            final(self).spec_warning_count() == old(self).spec_warning_count(),
            final(self).spec_invalidated() == old(self).spec_invalidated(),
    {
        &mut self.comments
    }

    /// Diagnostics of the source file after parsing and/or verification,
    /// as a snapshot copy.
    pub fn diagnostics(&self) -> (r: Vec<Diagnostic>)
        ensures
            r.deep_view() == self.spec_diagnostics_vw(),
    {
        let mut collection: Vec<Diagnostic> = Vec::new();
        let n = self.diagnostics.len();
        for i in 0..n
            invariant
                n == self.diagnostics@.len(),
                collection@.len() == i,
                forall|t: int| 0 <= t < i ==> #[trigger] collection@[t]@ == self.diagnostics@[t]@,
        {
            let d = self.diagnostics[i].clone();
            collection.push(d);
        }
        assert(collection.deep_view() =~= self.spec_diagnostics_vw());
        collection
    }

    /// Records one diagnostic: appends it, counts it once as an error or
    /// as a warning, and invalidates the unit when it is not a warning.
    pub fn add_diagnostic(&mut self, diagnostic: Diagnostic)
        requires
            old(self).wf(),
        ensures
            final(self).wf(),
            final(self).spec_diagnostics() == old(self).spec_diagnostics().push(diagnostic),
            diagnostic.warning ==> {
                &&& final(self).spec_warning_count() == old(self).spec_warning_count() + 1
                &&& final(self).spec_error_count() == old(self).spec_error_count()
                &&& final(self).spec_invalidated() == old(self).spec_invalidated()
            },
            !diagnostic.warning ==> {
                &&& final(self).spec_error_count() == old(self).spec_error_count() + 1
                &&& final(self).spec_warning_count() == old(self).spec_warning_count()
                &&& final(self).spec_invalidated()
            },
            final(self).spec_file_path() == old(self).spec_file_path(),
            final(self).spec_text() == old(self).spec_text(),
            final(self).spec_comments() == old(self).spec_comments(),
    {
        let warning = diagnostic.is_warning();
        self.diagnostics.push(diagnostic);
        // learning the new length bounds the counter increments below
        let _recorded = self.diagnostics.len();
        if warning {
            self.warning_count = self.warning_count + 1;
        } else {
            self.error_count = self.error_count + 1;
            self.invalidated = true;
        }
    }

    /// How many errors have been recorded.
    pub fn error_count(&self) -> (r: usize)
        ensures
            r == self.spec_error_count(),
    {
        self.error_count
    }

    /// How many warnings have been recorded.
    pub fn warning_count(&self) -> (r: usize)
        ensures
            r == self.spec_warning_count(),
    {
        self.warning_count
    }

    /// Sorts the recorded diagnostics into reporting order: by source
    /// location, then kind, then severity and arguments. Required before
    /// emitting, since insertion order tracks the verifier's traversal
    /// order, which is not stable. The reporting order ties only between
    /// diagnostics equal in value, so the sorted arrangement is the one
    /// deterministic order of the recorded collection
    /// ([`lemma_sorted_vw_unique`]), and sorting an already sorted ledger
    /// changes nothing.
    pub fn sort_diagnostics(&mut self)
        ensures
            final(self).spec_diagnostics().to_multiset() == old(
                self,
            ).spec_diagnostics().to_multiset(),
            final(self).spec_diagnostics_vw().to_multiset() == old(
                self,
            ).spec_diagnostics_vw().to_multiset(),
            final(self).spec_diagnostics().len() == old(self).spec_diagnostics().len(),
            diags_sorted(final(self).spec_diagnostics()),
            vw_sorted(final(self).spec_diagnostics_vw()),
            diags_sorted(old(self).spec_diagnostics()) ==> final(self).spec_diagnostics_vw()
                == old(self).spec_diagnostics_vw(),
            old(self).wf() ==> final(self).wf(),
            final(self).spec_file_path() == old(self).spec_file_path(),
            final(self).spec_text() == old(self).spec_text(),
            final(self).spec_error_count() == old(self).spec_error_count(),
            final(self).spec_warning_count() == old(self).spec_warning_count(),
            final(self).spec_invalidated() == old(self).spec_invalidated(),
            final(self).spec_comments() == old(self).spec_comments(),
    {
        proof {
            assert(old(self).diagnostics.deep_view() =~= old(self).spec_diagnostics_vw());
        }
        sort_diagnostic_vec(&mut self.diagnostics);
        proof {
            assert(self.diagnostics.deep_view() =~= self.spec_diagnostics_vw());
            assert forall|i: int, j: int|
                0 <= i < j < self.spec_diagnostics_vw().len() implies diag_le_vw(
                #[trigger] self.spec_diagnostics_vw()[i],
                #[trigger] self.spec_diagnostics_vw()[j],
            ) by {
                assert(diag_le(self.diagnostics@[i], self.diagnostics@[j]));
            }
            if diags_sorted(old(self).spec_diagnostics()) {
                assert forall|i: int, j: int|
                    0 <= i < j < old(self).spec_diagnostics_vw().len() implies diag_le_vw(
                    #[trigger] old(self).spec_diagnostics_vw()[i],
                    #[trigger] old(self).spec_diagnostics_vw()[j],
                ) by {
                    assert(diag_le(old(self).diagnostics@[i], old(self).diagnostics@[j]));
                }
                lemma_sorted_vw_unique(
                    self.spec_diagnostics_vw(),
                    old(self).spec_diagnostics_vw(),
                );
            }
        }
    }

    /// Retrieves the line number of a byte offset. The resulting line
    /// number is counted from one.
    pub fn get_line_number(&self, offset: usize) -> (r: usize)
        ensures
            r == line_number_at(self.spec_text(), offset),
    {
        source_text_line_number(&self.source_text, offset)
    }

    /// Returns the zero-based column of a byte offset, which must lie on a
    /// character boundary of the text.
    pub fn get_column(&self, offset: usize) -> (r: usize)
        requires
            char_boundary(self.spec_text(), offset),
        ensures
            r == column_at(self.spec_text(), offset),
    {
        source_text_column(&self.source_text, offset)
    }

    /// Retrieves the byte offset a line number (counted from one) starts
    /// at, or `None` past the last line.
    pub fn get_line_offset(&self, line: usize) -> (r: Option<usize>)
        ensures
            r == line_offset_of(self.spec_text(), line),
    {
        source_text_line_offset(&self.source_text, line)
    }

    /// Retrieves the byte offset of the start of the line a byte offset
    /// falls on.
    pub fn get_line_offset_from_offset(&self, offset: usize) -> (r: usize)
        ensures
            r == line_offset_at(self.spec_text(), offset),
    {
        source_text_line_offset_from_offset(&self.source_text, offset)
    }
}

impl Default for CompilationUnit {
    /// An empty, pathless unit with no diagnostics.
    fn default() -> (r: Self)
        ensures
            r.wf(),
            r.spec_file_path() is None,
            r.spec_text() == Seq::<char>::empty(),
            r.spec_diagnostics() == Seq::<Diagnostic>::empty(),
            r.spec_error_count() == 0,
            r.spec_warning_count() == 0,
            !r.spec_invalidated(),
            r.spec_comments() == Seq::<Comment>::empty(),
    {
        CompilationUnit::new(None, String::new())
    }
}

/// Sorts diagnostics in place by insertion, keeping exactly the same
/// collection of diagnostics, values included.
#[verifier::loop_isolation(false)]
fn sort_diagnostic_vec(v: &mut Vec<Diagnostic>)
    ensures
        final(v)@.to_multiset() == old(v)@.to_multiset(),
        final(v).deep_view().to_multiset() == old(v).deep_view().to_multiset(),
        final(v)@.len() == old(v)@.len(),
        diags_sorted(final(v)@),
{
    let n = v.len();
    if n == 0 {
        return ;
    }
    let mut i: usize = 1;
    while i < n
        invariant
            1 <= i <= n,
            v@.len() == n,
            v@.to_multiset() == old(v)@.to_multiset(),
            v.deep_view().to_multiset() == old(v).deep_view().to_multiset(),
            diags_sorted(v@.take(i as int)),
        decreases n - i,
    {
        let ghost before = v@;
        let ghost dv_before = v.deep_view();
        let x = v.remove(i);
        assert(before.remove(i as int).to_multiset() =~= before.to_multiset().remove(before[i as int]));
        assert(v.deep_view() =~= dv_before.remove(i as int)) by {
            assert forall|t: int| 0 <= t < v.deep_view().len() implies v.deep_view()[t]
                == dv_before.remove(i as int)[t] by {
                if t < i {
                    assert(v@[t] == before[t]);
                } else {
                    assert(v@[t] == before[t + 1]);
                }
            }
        }
        assert(dv_before.remove(i as int).to_multiset() =~= dv_before.to_multiset().remove(
            dv_before[i as int],
        ));
        let mut p: usize = 0;
        while p < i && diag_le_exec(&v[p], &x)
            invariant
                p <= i,
                v@ == before.remove(i as int),
                forall|a: int| 0 <= a < p ==> diag_le(#[trigger] v@[a], x),
            decreases i - p,
        {
            p += 1;
        }
        let ghost dv_mid = v.deep_view();
        v.insert(p, x);
        proof {
            assert(v@.to_multiset() =~= before.remove(i as int).to_multiset().insert(x));
            assert(before.to_multiset().contains(before[i as int]));
            assert(v@.to_multiset() =~= before.to_multiset());
            assert(v.deep_view() =~= dv_mid.insert(p as int, x.deep_view())) by {
                assert forall|t: int| 0 <= t < v.deep_view().len() implies v.deep_view()[t]
                    == dv_mid.insert(p as int, x.deep_view())[t] by {
                    if t < p {
                        assert(v@[t] == before.remove(i as int)[t]);
                    } else if t == p {
                        assert(v@[t] == x);
                    } else {
                        assert(v@[t] == before.remove(i as int)[t - 1]);
                    }
                }
            }
            assert(dv_before.contains(dv_before[i as int]));
            assert(x.deep_view() == dv_before[i as int]);
            assert(v.deep_view().to_multiset() =~= dv_before.to_multiset());
            assert forall|a: int, b: int| 0 <= a < b < i + 1 implies diag_le(
                #[trigger] v@.take(i + 1)[a],
                #[trigger] v@.take(i + 1)[b],
            ) by {
                let prev = before.remove(i as int);
                if b < p {
                    assert(v@[a] == prev[a] && v@[b] == prev[b]);
                } else if b == p {
                    assert(v@[b] == x);
                    if a < p {
                        assert(diag_le(v@[a], x));
                    }
                } else {
                    assert(v@[b] == prev[b - 1]);
                    if p < i {
                        assert(!diag_le(prev[p as int], x));
                        lemma_diag_le_total(prev[p as int]@, x@);
                        assert(diag_le_vw(x@, prev[p as int]@));
                    }
                    if a < p {
                        assert(v@[a] == prev[a]);
                    } else if a == p {
                        assert(v@[a] == x);
                        if p < b - 1 {
                            assert(diag_le(prev[p as int], prev[b - 1]));
                            lemma_diag_le_trans(x@, prev[p as int]@, prev[b - 1]@);
                        }
                    } else {
                        assert(v@[a] == prev[a - 1]);
                    }
                }
            }
            assert(diags_sorted(v@.take(i + 1)));
        }
        i += 1;
    }
    assert(v@.take(n as int) =~= v@);
}

} // verus!
