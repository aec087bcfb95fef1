use vstd::prelude::*;
use vstd::string::StrSliceExecFns;
use crate::attributes::{
    entries_vw, lemma_entries_vw, UnprocessedMetadata, UnprocessedMetadataEntry,
    UnprocessedMetadataEntryVw, UnprocessedMetadataValue, UnprocessedMetadataValueVw,
    UnprocessedMetadataVw,
};
use crate::compilation_unit::CompilationUnit;
use crate::diagnostics::{Diagnostic, DiagnosticKind, DiagnosticVw};
use crate::location::Location;

verus! {

/// Resolved metadata: the raw annotation with every value typed.
pub struct Metadata {
    pub name: String,
    pub entries: Vec<MetadataEntry>,
}

/// One resolved metadata entry.
pub struct MetadataEntry {
    pub key: Option<String>,
    pub value: MetadataValue,
}

/// One resolved metadata value. A number is kept as the IEEE-754 binary64
/// bit pattern of the parsed double, so that the stored value is exact and
/// plain.
pub enum MetadataValue {
    String(String),
    Number(u64),
    Boolean(bool),
    File { filename: String, data: Vec<u8> },
    List(Vec<MetadataEntry>),
}

/// The mathematical value of a `Metadata`.
pub ghost struct MetadataVw {
    pub name: Seq<char>,
    pub entries: Seq<MetadataEntryVw>,
}

/// The mathematical value of a `MetadataEntry`.
pub ghost struct MetadataEntryVw {
    pub key: Option<Seq<char>>,
    pub value: MetadataValueVw,
}

/// The mathematical value of a `MetadataValue`.
pub ghost enum MetadataValueVw {
    String(Seq<char>),
    Number(u64),
    Boolean(bool),
    File { filename: Seq<char>, data: Seq<u8> },
    List(Seq<MetadataEntryVw>),
}

/// The mathematical values of a sequence of resolved entries.
pub open spec fn meta_entries_vw(es: Seq<MetadataEntry>) -> Seq<MetadataEntryVw>
    decreases es,
{
    if es.len() == 0 {
        Seq::empty()
    } else {
        seq![es[0]@] + meta_entries_vw(es.skip(1))
    }
}

impl View for MetadataValue {
    type V = MetadataValueVw;

    open spec fn view(&self) -> MetadataValueVw
        decreases self,
    {
        match self {
            MetadataValue::String(s) => MetadataValueVw::String(s@),
            MetadataValue::Number(b) => MetadataValueVw::Number(*b),
            MetadataValue::Boolean(b) => MetadataValueVw::Boolean(*b),
            MetadataValue::File { filename, data } => MetadataValueVw::File {
                filename: filename@,
                data: data@,
            },
            MetadataValue::List(es) => MetadataValueVw::List(meta_entries_vw(es@)),
        }
    }
}

impl View for MetadataEntry {
    type V = MetadataEntryVw;

    open spec fn view(&self) -> MetadataEntryVw
        decreases self,
    {
        MetadataEntryVw {
            key: match self.key {
                Some(k) => Some(k@),
                None => None,
            },
            value: self.value@,
        }
    }
}

impl View for Metadata {
    type V = MetadataVw;

    open spec fn view(&self) -> MetadataVw
        decreases self,
    {
        MetadataVw { name: self.name@, entries: meta_entries_vw(self.entries@) }
    }
}

/// Appending one resolved entry extends the entry views by its view.
proof fn lemma_meta_entries_push(es: Seq<MetadataEntry>, x: MetadataEntry)
    ensures
        meta_entries_vw(es.push(x)) == meta_entries_vw(es) + seq![x@],
    decreases es.len(),
{
    assert(meta_entries_vw(es.push(x)) == seq![es.push(x)[0]@] + meta_entries_vw(
        es.push(x).skip(1),
    ));
    if es.len() == 0 {
        assert(es.push(x).skip(1) =~= Seq::<MetadataEntry>::empty());
        assert(es.push(x)[0] == x);
        assert(meta_entries_vw(Seq::<MetadataEntry>::empty()) =~= Seq::<MetadataEntryVw>::empty());
        assert(meta_entries_vw(es.push(x)) =~= meta_entries_vw(es) + seq![x@]);
    } else {
        assert(es.push(x).skip(1) =~= es.skip(1).push(x));
        assert(es.push(x)[0] == es[0]);
        assert(meta_entries_vw(es) == seq![es[0]@] + meta_entries_vw(es.skip(1)));
        lemma_meta_entries_push(es.skip(1), x);
        assert(meta_entries_vw(es.push(x)) =~= meta_entries_vw(es) + seq![x@]);
    }
}

/// One file the caller has loaded for metadata resolution.
///
/// Reading from disk is the surrounding driver's business: it resolves the
/// paths the metadata names (through `resolve_metadata_file_path`), reads
/// them, and hands the contents in. A path absent from the table counts as
/// unreadable.
pub struct LoadedFile {
    pub path: String,
    pub data: Vec<u8>,
}

/// What metadata resolution needs from outside one translation unit: the
/// compiler's configured output directory, passed explicitly rather than
/// read from ambient state, and the loaded file table.
pub struct MetadataEnv {
    pub output_directory: String,
    pub files: Vec<LoadedFile>,
}

/// Contents of the first loaded file with the given path.
pub open spec fn file_lookup(files: Seq<LoadedFile>, path: Seq<char>) -> Option<Seq<u8>>
    decreases files.len(),
{
    if files.len() == 0 {
        None
    } else if files[0].path@ == path {
        Some(files[0].data@)
    } else {
        file_lookup(files.skip(1), path)
    }
}

/// Path a file reference resolves to when joined under the output
/// directory, as the `file_paths` crate resolves it for the build target.
pub uninterp spec fn output_resolved(output_directory: Seq<char>, path: Seq<char>) -> Seq<char>;

/// Path a file reference resolves to beside the referencing source file
/// (one level up from the file's own path, then the reference), as the
/// `file_paths` crate resolves it for the build target.
pub uninterp spec fn sibling_resolved(source_path: Seq<char>, path: Seq<char>) -> Seq<char>;

/// Base name of a path, as the `file_paths` crate computes it.
pub uninterp spec fn base_name_of(path: Seq<char>) -> Seq<char>;

/// IEEE-754 binary64 bit pattern of a non-negative decimal floating-point
/// literal, or `None` when the text is not one; a function of the text
/// alone.
pub uninterp spec fn parsed_double_bits(text: Seq<char>) -> Option<u64>;

/// Longest numeric-literal text handed to the parser, in characters; the
/// parser folds character positions into a 32-bit exponent, so texts are
/// kept far below that range.
pub open spec fn max_numeric_literal_len() -> int {
    0x2000_0000
}

/// Relies on file_paths::FlexPath: `from_n_native` joins and resolves the
/// two paths for the build target, and `to_string_with_flex_separator`
/// renders the result; both are pure functions of their arguments.
#[verifier::external_body]
fn resolve_under_output(output_directory: &str, path: &str) -> (r: String)
    ensures
        r@ == output_resolved(output_directory@, path@),
{
    file_paths::FlexPath::from_n_native([output_directory, path]).to_string_with_flex_separator()
}

/// Relies on file_paths::FlexPath: `new_native` resolves the source file's
/// path, `resolve` steps to its directory and then to the reference, and
/// `to_string_with_flex_separator` renders the result; all pure functions
/// of their arguments.
#[verifier::external_body]
fn resolve_beside_source(source_path: &str, path: &str) -> (r: String)
    ensures
        r@ == sibling_resolved(source_path@, path@),
{
    file_paths::FlexPath::new_native(source_path).resolve("..").resolve(path)
        .to_string_with_flex_separator()
}

/// Relies on file_paths::FlexPath::base_name: the last path segment, a
/// pure function of the path.
#[verifier::external_body]
fn path_base_name(path: &str) -> (r: String)
    ensures
        r@ == base_name_of(path@),
{
    file_paths::FlexPath::new_native(path).base_name()
}

/// Relies on rustc_apfloat::ieee::Double: `from_str` parses a decimal
/// floating-point literal with IEEE round-to-nearest-even (erring on
/// malformed text), and `to_bits` gives the IEEE-754 binary64 encoding;
/// both are pure, software-computed functions of the text alone.
#[verifier::external_body]
fn parse_double_bits(text: &str) -> (r: Option<u64>)
    requires
        text@.len() < max_numeric_literal_len(),
    ensures
        r == parsed_double_bits(text@),
{
    text.parse::<rustc_apfloat::ieee::Double>().ok().map(|v| rustc_apfloat::Float::to_bits(v)
        as u64)
}

/// The IEEE-754 binary64 bit pattern a numeric-literal text resolves to:
/// an optional leading minus is stripped, the remainder is parsed as a
/// decimal floating-point literal, and the minus flips the sign bit. A
/// text too long for the parser's exponent range fails like any other
/// malformed literal.
pub open spec fn spec_number_bits(text: Seq<char>) -> Option<u64> {
    if text.len() >= max_numeric_literal_len() {
        None
    } else if text.len() > 0 && text[0] == '-' {
        match parsed_double_bits(text.skip(1)) {
            Some(b) => Some(b ^ 0x8000_0000_0000_0000u64),
            None => None,
        }
    } else {
        parsed_double_bits(text)
    }
}

/// The absolute path a metadata file reference names: under the output
/// directory when the reference is marked "output", else beside the
/// referencing source file.
pub open spec fn spec_resolved_file_path(
    output: bool,
    file_path: Seq<char>,
    output_directory: Seq<char>,
    source_path: Seq<char>,
) -> Seq<char> {
    if output {
        output_resolved(output_directory, file_path)
    } else {
        sibling_resolved(source_path, file_path)
    }
}

/// The path of the source file of a unit, or empty when it has none.
pub open spec fn unit_source_path(unit: CompilationUnit) -> Seq<char> {
    match unit.spec_file_path() {
        Some(p) => p@,
        None => Seq::empty(),
    }
}

/// Resolves the absolute path a metadata file reference names, so that the
/// caller can load the file before resolving the metadata.
pub fn resolve_metadata_file_path(
    output: bool,
    file_path: &str,
    output_directory: &str,
    source_file_path: &str,
) -> (r: String)
    ensures
        r@ == spec_resolved_file_path(output, file_path@, output_directory@, source_file_path@),
{
    if output {
        resolve_under_output(output_directory, file_path)
    } else {
        resolve_beside_source(source_file_path, file_path)
    }
}

/// One diagnostic metadata resolution records; resolution failures are
/// always errors, never warnings.
pub ghost struct MetadataDiag {
    pub location: Location,
    pub kind: DiagnosticKind,
    pub arguments: Seq<Seq<char>>,
}

/// The diagnostic value a resolution failure records.
pub open spec fn diag_vw_of(d: MetadataDiag) -> DiagnosticVw {
    DiagnosticVw { location: d.location, kind: d.kind, warning: false, arguments: d.arguments }
}

/// How one resolution step leaves the ledger: exactly the given error
/// diagnostics appended and counted, everything else untouched.
pub open spec fn ledger_extended(
    pre: CompilationUnit,
    post: CompilationUnit,
    diags: Seq<MetadataDiag>,
) -> bool {
    &&& post.wf()
    &&& post.spec_diagnostics_vw() == pre.spec_diagnostics_vw() + diags.map_values(
        |d: MetadataDiag| diag_vw_of(d),
    )
    &&& post.spec_error_count() == pre.spec_error_count() + diags.len()
    &&& post.spec_warning_count() == pre.spec_warning_count()
    &&& (post.spec_invalidated() <==> (pre.spec_invalidated() || diags.len() > 0))
    &&& post.spec_file_path() == pre.spec_file_path()
    &&& post.spec_text() == pre.spec_text()
    &&& post.spec_comments() == pre.spec_comments()
}

/// Extending a ledger twice extends it by the concatenation.
proof fn lemma_ledger_extended_trans(
    a: CompilationUnit,
    b: CompilationUnit,
    c: CompilationUnit,
    d1: Seq<MetadataDiag>,
    d2: Seq<MetadataDiag>,
)
    requires
        ledger_extended(a, b, d1),
        ledger_extended(b, c, d2),
    ensures
        ledger_extended(a, c, d1 + d2),
{
    assert((d1 + d2).map_values(|d: MetadataDiag| diag_vw_of(d)) =~= d1.map_values(
        |d: MetadataDiag| diag_vw_of(d),
    ) + d2.map_values(|d: MetadataDiag| diag_vw_of(d)));
    assert(c.spec_diagnostics_vw() =~= a.spec_diagnostics_vw() + (d1 + d2).map_values(
        |d: MetadataDiag| diag_vw_of(d),
    ));
}

/// A ledger is unchanged when nothing was recorded.
proof fn lemma_ledger_extended_refl(a: CompilationUnit)
    requires
        a.wf(),
    ensures
        ledger_extended(a, a, Seq::<MetadataDiag>::empty()),
{
    assert(a.spec_diagnostics_vw() =~= a.spec_diagnostics_vw() + Seq::<MetadataDiag>::empty().map_values(
        |d: MetadataDiag| diag_vw_of(d),
    ));
}

/// What resolving one raw value yields: the typed value on success, and
/// the diagnostics the step records.
pub ghost struct ValueOutcome {
    pub value: Option<MetadataValueVw>,
    pub diags: Seq<MetadataDiag>,
}

/// What resolving one raw entry yields.
pub ghost struct EntryOutcome {
    pub value: Option<MetadataEntryVw>,
    pub diags: Seq<MetadataDiag>,
}

/// What resolving a sequence of raw entries yields: the entries that
/// resolved, in order, and all diagnostics; one failing entry is dropped
/// without aborting its siblings.
pub ghost struct EntriesOutcome {
    pub entries: Seq<MetadataEntryVw>,
    pub diags: Seq<MetadataDiag>,
}

/// What resolving a whole raw metadata annotation yields.
pub ghost struct MetadataOutcome {
    pub value: MetadataVw,
    pub diags: Seq<MetadataDiag>,
}

/// Resolution of one raw metadata value.
pub open spec fn spec_process_value(
    v: UnprocessedMetadataValueVw,
    output_directory: Seq<char>,
    source_path: Seq<char>,
    files: Seq<LoadedFile>,
) -> ValueOutcome
    decreases v,
{
    match v {
        UnprocessedMetadataValueVw::IdentifierString((s, _)) => ValueOutcome {
            value: Some(MetadataValueVw::String(s)),
            diags: Seq::empty(),
        },
        UnprocessedMetadataValueVw::String((s, _)) => ValueOutcome {
            value: Some(MetadataValueVw::String(s)),
            diags: Seq::empty(),
        },
        UnprocessedMetadataValueVw::Number((s, l)) => match spec_number_bits(s) {
            Some(bits) => ValueOutcome {
                value: Some(MetadataValueVw::Number(bits)),
                diags: Seq::empty(),
            },
            None => ValueOutcome {
                value: None,
                diags: seq![
                    MetadataDiag {
                        location: l,
                        kind: DiagnosticKind::FailedParsingNumericLiteral,
                        arguments: Seq::empty(),
                    },
                ],
            },
        },
        UnprocessedMetadataValueVw::Boolean((b, _)) => ValueOutcome {
            value: Some(MetadataValueVw::Boolean(b)),
            diags: Seq::empty(),
        },
        UnprocessedMetadataValueVw::File { location, output, file_path } => {
            let p = spec_resolved_file_path(output, file_path.0, output_directory, source_path);
            match file_lookup(files, p) {
                Some(data) => ValueOutcome {
                    value: Some(MetadataValueVw::File { filename: base_name_of(p), data }),
                    diags: Seq::empty(),
                },
                None => ValueOutcome {
                    value: None,
                    diags: seq![
                        MetadataDiag {
                            location,
                            kind: DiagnosticKind::FailedLoadingMetadataFile,
                            arguments: seq![p],
                        },
                    ],
                },
            }
        },
        UnprocessedMetadataValueVw::List((es, _)) => {
            let eo = spec_process_entries(es, output_directory, source_path, files);
            ValueOutcome { value: Some(MetadataValueVw::List(eo.entries)), diags: eo.diags }
        },
    }
}

/// Resolution of one raw metadata entry: its value's resolution, keyed.
pub open spec fn spec_process_entry(
    e: UnprocessedMetadataEntryVw,
    output_directory: Seq<char>,
    source_path: Seq<char>,
    files: Seq<LoadedFile>,
) -> EntryOutcome
    decreases e,
{
    let vo = spec_process_value(e.value, output_directory, source_path, files);
    match vo.value {
        Some(v) => EntryOutcome {
            value: Some(
                MetadataEntryVw {
                    key: match e.key {
                        Some((k, _)) => Some(k),
                        None => None,
                    },
                    value: v,
                },
            ),
            diags: vo.diags,
        },
        None => EntryOutcome { value: None, diags: vo.diags },
    }
}

/// Resolution of a sequence of raw entries: entries that fail are dropped,
/// their diagnostics kept, and the siblings still resolved.
pub open spec fn spec_process_entries(
    es: Seq<UnprocessedMetadataEntryVw>,
    output_directory: Seq<char>,
    source_path: Seq<char>,
    files: Seq<LoadedFile>,
) -> EntriesOutcome
    decreases es,
{
    if es.len() == 0 {
        EntriesOutcome { entries: Seq::empty(), diags: Seq::empty() }
    } else {
        let first = spec_process_entry(es[0], output_directory, source_path, files);
        let rest = spec_process_entries(es.skip(1), output_directory, source_path, files);
        EntriesOutcome {
            entries: (match first.value {
                Some(e) => seq![e],
                None => Seq::<MetadataEntryVw>::empty(),
            }) + rest.entries,
            diags: first.diags + rest.diags,
        }
    }
}

/// Resolution of a whole raw metadata annotation.
pub open spec fn spec_process_metadata(
    m: UnprocessedMetadataVw,
    output_directory: Seq<char>,
    source_path: Seq<char>,
    files: Seq<LoadedFile>,
) -> MetadataOutcome {
    let eo = match m.entries {
        Some(es) => spec_process_entries(es, output_directory, source_path, files),
        None => EntriesOutcome { entries: Seq::empty(), diags: Seq::empty() },
    };
    MetadataOutcome {
        value: MetadataVw { name: m.name.0, entries: eo.entries },
        diags: eo.diags,
    }
}

/// Appending one raw entry extends the resolution outcome by that entry's.
proof fn lemma_process_entries_push(
    es: Seq<UnprocessedMetadataEntryVw>,
    x: UnprocessedMetadataEntryVw,
    output_directory: Seq<char>,
    source_path: Seq<char>,
    files: Seq<LoadedFile>,
)
    ensures
        ({
            let whole = spec_process_entries(es.push(x), output_directory, source_path, files);
            let prev = spec_process_entries(es, output_directory, source_path, files);
            let last = spec_process_entry(x, output_directory, source_path, files);
            &&& whole.entries == prev.entries + (match last.value {
                Some(e) => seq![e],
                None => Seq::<MetadataEntryVw>::empty(),
            })
            &&& whole.diags == prev.diags + last.diags
        }),
    decreases es.len(),
{
    let whole = spec_process_entries(es.push(x), output_directory, source_path, files);
    let prev = spec_process_entries(es, output_directory, source_path, files);
    let last = spec_process_entry(x, output_directory, source_path, files);
    let first_w = spec_process_entry(es.push(x)[0], output_directory, source_path, files);
    let rest_w = spec_process_entries(es.push(x).skip(1), output_directory, source_path, files);
    assert(whole.entries == (match first_w.value {
        Some(e) => seq![e],
        None => Seq::<MetadataEntryVw>::empty(),
    }) + rest_w.entries);
    assert(whole.diags == first_w.diags + rest_w.diags);
    if es.len() == 0 {
        assert(es.push(x).skip(1) =~= Seq::<UnprocessedMetadataEntryVw>::empty());
        assert(es.push(x)[0] == x);
        assert(spec_process_entries(
            Seq::<UnprocessedMetadataEntryVw>::empty(),
            output_directory,
            source_path,
            files,
        ).entries =~= Seq::<MetadataEntryVw>::empty());
        assert(spec_process_entries(
            Seq::<UnprocessedMetadataEntryVw>::empty(),
            output_directory,
            source_path,
            files,
        ).diags =~= Seq::<MetadataDiag>::empty());
        assert(whole.entries =~= prev.entries + (match last.value {
            Some(e) => seq![e],
            None => Seq::<MetadataEntryVw>::empty(),
        }));
        assert(whole.diags =~= prev.diags + last.diags);
    } else {
        assert(es.push(x).skip(1) =~= es.skip(1).push(x));
        assert(es.push(x)[0] == es[0]);
        let first_p = spec_process_entry(es[0], output_directory, source_path, files);
        let rest_p = spec_process_entries(es.skip(1), output_directory, source_path, files);
        assert(prev.entries == (match first_p.value {
            Some(e) => seq![e],
            None => Seq::<MetadataEntryVw>::empty(),
        }) + rest_p.entries);
        assert(prev.diags == first_p.diags + rest_p.diags);
        lemma_process_entries_push(es.skip(1), x, output_directory, source_path, files);
        assert(whole.entries =~= prev.entries + (match last.value {
            Some(e) => seq![e],
            None => Seq::<MetadataEntryVw>::empty(),
        }));
        assert(whole.diags =~= prev.diags + last.diags);
    }
}

/// Copies a byte vector.
#[verifier::loop_isolation(false)]
fn clone_bytes(v: &Vec<u8>) -> (r: Vec<u8>)
    ensures
        r@ == v@,
{
    let mut r: Vec<u8> = Vec::new();
    let n = v.len();
    for i in 0..n
        invariant
            r@.len() == i,
            forall|t: int| 0 <= t < i ==> r@[t] == v@[t],
    {
        r.push(v[i]);
    }
    assert(r@ =~= v@);
    r
}

/// Contents of the first loaded file with the given path, if any.
#[verifier::loop_isolation(false)]
fn lookup_file(files: &Vec<LoadedFile>, path: &String) -> (r: Option<Vec<u8>>)
    ensures
        match r {
            Some(data) => file_lookup(files@, path@) == Some(data@),
            None => file_lookup(files@, path@) is None,
        },
{
    let n = files.len();
    assert(files@.skip(0) =~= files@);
    for i in 0..n
        invariant
            file_lookup(files@, path@) == file_lookup(files@.skip(i as int), path@),
    {
        assert(files@.skip(i as int)[0] == files@[i as int]);
        if files[i].path == *path {
            return Some(clone_bytes(&files[i].data));
        }
        assert(files@.skip(i as int).skip(1) =~= files@.skip(i + 1));
    }
    assert(files@.skip(n as int) =~= Seq::<LoadedFile>::empty());
    None
}

impl UnprocessedMetadataValue {
    /// Resolves one raw metadata value into its typed form; on failure the
    /// reason is recorded against `unit` and the value is absent, leaving
    /// the caller free to go on with siblings.
    #[verifier::loop_isolation(false)]
    pub fn process(&self, env: &MetadataEnv, unit: &mut CompilationUnit) -> (r: Result<
        MetadataValue,
        (),
    >)
        requires
            old(unit).wf(),
        ensures
            ({
                let o = spec_process_value(
                    self@,
                    env.output_directory@,
                    unit_source_path(*old(unit)),
                    env.files@,
                );
                &&& ledger_extended(*old(unit), *final(unit), o.diags)
                &&& match r {
                    Ok(v) => o.value == Some(v@),
                    Err(_) => o.value is None,
                }
            }),
        decreases self,
    {
        match self {
            Self::IdentifierString((v, _)) => {
                proof {
                    lemma_ledger_extended_refl(*unit);
                }
                Ok(MetadataValue::String(v.clone()))
            },
            Self::String((v, _)) => {
                proof {
                    lemma_ledger_extended_refl(*unit);
                }
                Ok(MetadataValue::String(v.clone()))
            },
            Self::Number((v, l)) => {
                let vlen = v.as_str().unicode_len();
                if vlen >= 0x2000_0000 {
                    let d = Diagnostic {
                        location: *l,
                        kind: DiagnosticKind::FailedParsingNumericLiteral,
                        warning: false,
                        arguments: Vec::new(),
                    };
                    let ghost dv = d@;
                    unit.add_diagnostic(d);
                    proof {
                        let o = spec_process_value(
                            self@,
                            env.output_directory@,
                            unit_source_path(*old(unit)),
                            env.files@,
                        );
                        assert(dv.arguments =~= Seq::<Seq<char>>::empty());
                        assert(unit.spec_diagnostics_vw() =~= old(
                            unit,
                        ).spec_diagnostics_vw() + o.diags.map_values(
                            |dd: MetadataDiag| diag_vw_of(dd),
                        ));
                    }
                    return Err(());
                }
                let negative = vlen > 0 && v.as_str().get_char(0) == '-';
                let parsed = if negative {
                    let rest = v.as_str().substring_char(1, vlen);
                    assert(rest@ =~= v@.skip(1));
                    parse_double_bits(rest)
                } else {
                    parse_double_bits(v.as_str())
                };
                match parsed {
                    Some(b) => {
                        proof {
                            lemma_ledger_extended_refl(*unit);
                        }
                        let bits = if negative {
                            b ^ 0x8000_0000_0000_0000u64
                        } else {
                            b
                        };
                        Ok(MetadataValue::Number(bits))
                    },
                    None => {
                        let d = Diagnostic {
                            location: *l,
                            kind: DiagnosticKind::FailedParsingNumericLiteral,
                            warning: false,
                            arguments: Vec::new(),
                        };
                        let ghost dv = d@;
                        unit.add_diagnostic(d);
                        proof {
                            let o = spec_process_value(
                                self@,
                                env.output_directory@,
                                unit_source_path(*old(unit)),
                                env.files@,
                            );
                            assert(dv.arguments =~= Seq::<Seq<char>>::empty());
                            assert(unit.spec_diagnostics_vw() =~= old(
                                unit,
                            ).spec_diagnostics_vw() + o.diags.map_values(
                                |dd: MetadataDiag| diag_vw_of(dd),
                            ));
                        }
                        Err(())
                    },
                }
            },
            Self::Boolean((v, _)) => {
                proof {
                    lemma_ledger_extended_refl(*unit);
                }
                Ok(MetadataValue::Boolean(*v))
            },
            Self::File { location, output, file_path } => {
                let source = match unit.file_path() {
                    Some(p) => p,
                    None => String::new(),
                };
                let resolved = resolve_metadata_file_path(
                    *output,
                    file_path.0.as_str(),
                    env.output_directory.as_str(),
                    source.as_str(),
                );
                match lookup_file(&env.files, &resolved) {
                    Some(data) => {
                        proof {
                            lemma_ledger_extended_refl(*unit);
                        }
                        let filename = path_base_name(resolved.as_str());
                        Ok(MetadataValue::File { filename, data })
                    },
                    None => {
                        let mut arguments: Vec<String> = Vec::new();
                        arguments.push(resolved);
                        let d = Diagnostic {
                            location: *location,
                            kind: DiagnosticKind::FailedLoadingMetadataFile,
                            warning: false,
                            arguments,
                        };
                        let ghost dv = d@;
                        unit.add_diagnostic(d);
                        proof {
                            let o = spec_process_value(
                                self@,
                                env.output_directory@,
                                unit_source_path(*old(unit)),
                                env.files@,
                            );
                            assert(dv.arguments =~= o.diags[0].arguments);
                            assert(unit.spec_diagnostics_vw() =~= old(
                                unit,
                            ).spec_diagnostics_vw() + o.diags.map_values(
                                |dd: MetadataDiag| diag_vw_of(dd),
                            ));
                        }
                        Err(())
                    },
                }
            },
            Self::List((u_entries, _)) => {
                let mut entries: Vec<MetadataEntry> = Vec::new();
                let n = u_entries.len();
                let ghost ev = entries_vw(u_entries@);
                proof {
                    lemma_entries_vw(u_entries@);
                    lemma_ledger_extended_refl(*unit);
                    assert(ev.take(0) =~= Seq::<UnprocessedMetadataEntryVw>::empty());
                }
                for i in 0..n
                    invariant
                        n == u_entries@.len(),
                        ev == entries_vw(u_entries@),
                        ev.len() == n,
                        forall|t: int| 0 <= t < n ==> #[trigger] ev[t] == u_entries@[t]@,
                        unit.wf(),
                        ({
                            let po = spec_process_entries(
                                ev.take(i as int),
                                env.output_directory@,
                                unit_source_path(*old(unit)),
                                env.files@,
                            );
                            &&& ledger_extended(*old(unit), *unit, po.diags)
                            &&& meta_entries_vw(entries@) == po.entries
                        }),
                {
                    let ghost pre_diags = spec_process_entries(
                        ev.take(i as int),
                        env.output_directory@,
                        unit_source_path(*old(unit)),
                        env.files@,
                    ).diags;
                    let ghost mid = *unit;
                    proof {
                        assert(decreases_to!(*self => (*self)->List_0));
                        assert(decreases_to!((*self)->List_0 => (*self)->List_0.0));
                        assert(decreases_to!((*self)->List_0.0 => (*self)->List_0.0@));
                        assert(decreases_to!((*self)->List_0.0@ => (*self)->List_0.0@[i as int]));
                        assert((*self)->List_0.0@[i as int] == u_entries@[i as int]);
                    }
                    let res = u_entries[i].process(env, unit);
                    proof {
                        assert(unit_source_path(mid) == unit_source_path(*old(unit)));
                        assert(u_entries@[i as int]@ == ev[i as int]);
                        assert(ev.take(i + 1) =~= ev.take(i as int).push(ev[i as int]));
                        lemma_process_entries_push(
                            ev.take(i as int),
                            ev[i as int],
                            env.output_directory@,
                            unit_source_path(*old(unit)),
                            env.files@,
                        );
                    }
                    match res {
                        Ok(entry) => {
                            let ghost evw = entry@;
                            let ghost prev_entries = entries@;
                            entries.push(entry);
                            proof {
                                lemma_meta_entries_push(prev_entries, entries@.last());
                                assert(entries@ == prev_entries.push(entries@.last()));
                                let po1 = spec_process_entries(
                                    ev.take(i + 1),
                                    env.output_directory@,
                                    unit_source_path(*old(unit)),
                                    env.files@,
                                );
                                assert(meta_entries_vw(entries@) =~= po1.entries);
                                lemma_ledger_extended_trans(
                                    *old(unit),
                                    mid,
                                    *unit,
                                    pre_diags,
                                    spec_process_entry(
                                        ev[i as int],
                                        env.output_directory@,
                                        unit_source_path(*old(unit)),
                                        env.files@,
                                    ).diags,
                                );
                            }
                        },
                        Err(_) => {
                            proof {
                                let po1 = spec_process_entries(
                                    ev.take(i + 1),
                                    env.output_directory@,
                                    unit_source_path(*old(unit)),
                                    env.files@,
                                );
                                assert(meta_entries_vw(entries@) =~= po1.entries);
                                lemma_ledger_extended_trans(
                                    *old(unit),
                                    mid,
                                    *unit,
                                    pre_diags,
                                    spec_process_entry(
                                        ev[i as int],
                                        env.output_directory@,
                                        unit_source_path(*old(unit)),
                                        env.files@,
                                    ).diags,
                                );
                            }
                        },
                    }
                }
                proof {
                    assert(ev.take(n as int) =~= ev);
                }
                Ok(MetadataValue::List(entries))
            },
        }
    }
}

impl UnprocessedMetadataEntry {
    /// Resolves one raw metadata entry: its value is resolved, and the
    /// entry fails exactly when its value does.
    pub fn process(&self, env: &MetadataEnv, unit: &mut CompilationUnit) -> (r: Result<
        MetadataEntry,
        (),
    >)
        requires
            old(unit).wf(),
        ensures
            ({
                let o = spec_process_entry(
                    self@,
                    env.output_directory@,
                    unit_source_path(*old(unit)),
                    env.files@,
                );
                &&& ledger_extended(*old(unit), *final(unit), o.diags)
                &&& match r {
                    Ok(e) => o.value == Some(e@),
                    Err(_) => o.value is None,
                }
            }),
        decreases self,
    {
        match self.value.process(env, unit) {
            Ok(value) => Ok(
                MetadataEntry {
                    key: match &self.key {
                        Some((k, _)) => Some(k.clone()),
                        None => None,
                    },
                    value,
                },
            ),
            Err(_) => Err(()),
        }
    }
}

impl UnprocessedMetadata {
    /// Resolves a whole raw metadata annotation: every entry is attempted,
    /// failing entries are dropped with their diagnostics recorded, and
    /// the rest make up the resolved metadata. The raw form is left
    /// untouched, so resolution can be repeated at any time.
    #[verifier::loop_isolation(false)]
    pub fn process(&self, env: &MetadataEnv, unit: &mut CompilationUnit) -> (r: Metadata)
        requires
            old(unit).wf(),
        ensures
            ({
                let o = spec_process_metadata(
                    self@,
                    env.output_directory@,
                    unit_source_path(*old(unit)),
                    env.files@,
                );
                &&& ledger_extended(*old(unit), *final(unit), o.diags)
                &&& r@ == o.value
            }),
    {
        let mut entries: Vec<MetadataEntry> = Vec::new();
        match &self.entries {
            Some(u_entries) => {
                let n = u_entries.len();
                let ghost ev = entries_vw(u_entries@);
                proof {
                    lemma_entries_vw(u_entries@);
                    lemma_ledger_extended_refl(*unit);
                    assert(ev.take(0) =~= Seq::<UnprocessedMetadataEntryVw>::empty());
                }
                for i in 0..n
                    invariant
                        n == u_entries@.len(),
                        ev == entries_vw(u_entries@),
                        ev.len() == n,
                        forall|t: int| 0 <= t < n ==> #[trigger] ev[t] == u_entries@[t]@,
                        unit.wf(),
                        ({
                            let po = spec_process_entries(
                                ev.take(i as int),
                                env.output_directory@,
                                unit_source_path(*old(unit)),
                                env.files@,
                            );
                            &&& ledger_extended(*old(unit), *unit, po.diags)
                            &&& meta_entries_vw(entries@) == po.entries
                        }),
                {
                    let ghost pre_diags = spec_process_entries(
                        ev.take(i as int),
                        env.output_directory@,
                        unit_source_path(*old(unit)),
                        env.files@,
                    ).diags;
                    let ghost mid = *unit;
                    let res = u_entries[i].process(env, unit);
                    proof {
                        assert(unit_source_path(mid) == unit_source_path(*old(unit)));
                        assert(u_entries@[i as int]@ == ev[i as int]);
                        assert(ev.take(i + 1) =~= ev.take(i as int).push(ev[i as int]));
                        lemma_process_entries_push(
                            ev.take(i as int),
                            ev[i as int],
                            env.output_directory@,
                            unit_source_path(*old(unit)),
                            env.files@,
                        );
                    }
                    match res {
                        Ok(entry) => {
                            let ghost evw = entry@;
                            let ghost prev_entries = entries@;
                            entries.push(entry);
                            proof {
                                lemma_meta_entries_push(prev_entries, entries@.last());
                                assert(entries@ == prev_entries.push(entries@.last()));
                                let po1 = spec_process_entries(
                                    ev.take(i + 1),
                                    env.output_directory@,
                                    unit_source_path(*old(unit)),
                                    env.files@,
                                );
                                assert(meta_entries_vw(entries@) =~= po1.entries);
                                lemma_ledger_extended_trans(
                                    *old(unit),
                                    mid,
                                    *unit,
                                    pre_diags,
                                    spec_process_entry(
                                        ev[i as int],
                                        env.output_directory@,
                                        unit_source_path(*old(unit)),
                                        env.files@,
                                    ).diags,
                                );
                            }
                        },
                        Err(_) => {
                            proof {
                                let po1 = spec_process_entries(
                                    ev.take(i + 1),
                                    env.output_directory@,
                                    unit_source_path(*old(unit)),
                                    env.files@,
                                );
                                assert(meta_entries_vw(entries@) =~= po1.entries);
                                lemma_ledger_extended_trans(
                                    *old(unit),
                                    mid,
                                    *unit,
                                    pre_diags,
                                    spec_process_entry(
                                        ev[i as int],
                                        env.output_directory@,
                                        unit_source_path(*old(unit)),
                                        env.files@,
                                    ).diags,
                                );
                            }
                        },
                    }
                }
                proof {
                    assert(ev.take(n as int) =~= ev);
                }
            },
            None => {
                proof {
                    lemma_ledger_extended_refl(*unit);
                    assert(meta_entries_vw(entries@) =~= Seq::<MetadataEntryVw>::empty());
                }
            },
        }
        Metadata { name: self.name.0.clone(), entries }
    }
}

} // verus!
