//! Version compatibility of persisted documents.
//!
//! Every document names the version that produced it. A document is understood
//! when its producer agrees with this server in the major and minor number;
//! anything else must be left untouched.

use vstd::prelude::*;

use crate::text;

verus! {

/// Version of the request protocol.
pub const PROTOCOL_VERSION: u32 = 1;

/// Version of the lease file format.
pub const LEASE_FILE_VERSION: u32 = 1;

/// Version of the progress file format.
pub const PROGRESS_FILE_VERSION: u32 = 1;

/// The version of this server.
pub open spec fn current_version() -> Seq<char> {
    "0.1.0"@
}

/// The version of this server.
pub fn current_purgery_version() -> (version: &'static str)
    ensures
        version@ == current_version(),
{
    "0.1.0"
}

/// The first position at or after `from` that holds a dot, or the length.
pub open spec fn next_dot(v: Seq<char>, from: int) -> int
    decreases v.len() - from,
{
    if from >= v.len() {
        v.len() as int
    } else if v[from] == '.' {
        from
    } else {
        next_dot(v, from + 1)
    }
}

/// The major and minor number of a version of the form `major.minor.rest`.
pub open spec fn major_minor(v: Seq<char>) -> Option<(Seq<char>, Seq<char>)> {
    let first = next_dot(v, 0);
    let second = next_dot(v, first + 1);
    if second < v.len() {
        Some((v.subrange(0, first), v.subrange(first + 1, second)))
    } else {
        None
    }
}

/// Whether a producer's version agrees with a reader's in major and minor.
pub open spec fn versions_agree(producer: Seq<char>, reader: Seq<char>) -> bool {
    major_minor(producer) is Some && major_minor(producer) == major_minor(reader)
}

/// Whether this server understands what a producer wrote.
pub open spec fn compatible(producer: Seq<char>) -> bool {
    versions_agree(producer, current_version())
}

fn find_dot(v: &str, from: usize) -> (at: usize)
    requires
        from <= v@.len(),
    ensures
        at == next_dot(v@, from as int),
        from <= at <= v@.len(),
{
    let length: usize = v.unicode_len();
    let mut i: usize = from;
    while i < length
        invariant
            from <= i <= length,
            length == v@.len(),
            next_dot(v@, from as int) == next_dot(v@, i as int),
        decreases length - i,
    {
        if v.get_char(i) == '.' {
            return i;
        }
        i = i + 1;
    }
    length
}

/// Whether two versions agree in major and minor.
pub fn same_release_line(producer: &str, reader: &str) -> (agree: bool)
    ensures
        agree == versions_agree(producer@, reader@),
{
    let first: usize = find_dot(producer, 0);
    let reader_first: usize = find_dot(reader, 0);
    if first == producer.unicode_len() || reader_first == reader.unicode_len() {
        return false;
    }
    let second: usize = find_dot(producer, first + 1);
    let reader_second: usize = find_dot(reader, reader_first + 1);
    if second == producer.unicode_len() || reader_second == reader.unicode_len() {
        return false;
    }
    let major = text::same_text(
        producer.substring_char(0, first),
        reader.substring_char(0, reader_first),
    );
    let minor = text::same_text(
        producer.substring_char(first + 1, second),
        reader.substring_char(reader_first + 1, reader_second),
    );
    major && minor
}

/// Whether this server understands what a producer wrote.
pub fn is_compatible(producer: &str) -> (ok: bool)
    ensures
        ok == compatible(producer@),
{
    same_release_line(producer, current_purgery_version())
}

/// What a document says of the version that produced it.
#[derive(Debug)]
pub enum VersionProbe {
    /// The document names its producer's version.
    Version(String),
    /// The document is valid TOML and names no version.
    Missing,
    /// The document is not valid TOML; the reason is the parser's.
    Invalid(String),
}

/// What a document says of its producer, as characters.
pub enum ProbeView {
    Version(Seq<char>),
    Missing,
    Invalid(Seq<char>),
}

impl View for VersionProbe {
    type V = ProbeView;

    open spec fn view(&self) -> ProbeView {
        match self {
            VersionProbe::Version(v) => ProbeView::Version(v@),
            VersionProbe::Missing => ProbeView::Missing,
            VersionProbe::Invalid(e) => ProbeView::Invalid(e@),
        }
    }
}

/// What the TOML parser finds under a key of a document: the parse error, or the
/// string under the key if the top level has one.
pub uninterp spec fn toml_text_field(document: Seq<char>, key: Seq<char>) -> Result<
    Option<Seq<char>>,
    Seq<char>,
>;

/// Parses a document as `toml::Table` (`str::parse`) and looks a key up with
/// `Table::get` and `Value::as_str`. The contract claims only that the outcome is
/// determined by the document and the key.
#[verifier::external_body]
fn read_toml_text_field(document: &str, key: &str) -> (found: Result<Option<String>, String>)
    ensures
        toml_text_field(document@, key@) == (match found {
            Ok(value) => Ok(text::opt_text(value)),
            Err(error) => Err(error@),
        }),
{
    match document.parse::<toml::Table>() {
        Ok(table) => Ok(table.get(key).and_then(|value| value.as_str()).map(|s| s.to_owned())),
        Err(error) => Err(error.to_string()),
    }
}

/// The probe that a key lookup amounts to.
pub open spec fn probe_of(found: Result<Option<Seq<char>>, Seq<char>>) -> ProbeView {
    match found {
        Ok(Some(version)) => ProbeView::Version(version),
        Ok(None) => ProbeView::Missing,
        Err(error) => ProbeView::Invalid(error),
    }
}

/// Turns the lookup of a version key into a probe.
pub fn probe_from_field(found: Result<Option<String>, String>) -> (probe: VersionProbe)
    ensures
        probe@ == probe_of(
            match found {
                Ok(value) => Ok(text::opt_text(value)),
                Err(error) => Err(error@),
            },
        ),
{
    match found {
        Ok(Some(version)) => VersionProbe::Version(version),
        Ok(None) => VersionProbe::Missing,
        Err(error) => VersionProbe::Invalid(error),
    }
}

/// Reads the producer's version from the raw text of a document, before the
/// document is read as any particular type.
pub fn probe_purgery_version_from_toml(content: &str) -> (probe: VersionProbe)
    ensures
        probe@ == probe_of(toml_text_field(content@, "purgery_version"@)),
{
    probe_from_field(read_toml_text_field(content, "purgery_version"))
}

/// Outcome of holding a document's producer against this server.
#[derive(Debug)]
pub enum TomlVersionCheck {
    Compatible,
    /// The version is missing or of another release line. The document must be
    /// left as it is.
    Incompatible { reason: String },
    InvalidToml { error: String },
}

/// Why a document of another release line is refused.
pub open spec fn foreign_version_reason(version: Seq<char>) -> Seq<char> {
    "incompatible purgery_version: producer "@ + version + ", current "@ + current_version()
}

/// Why a document without a version is refused.
pub open spec fn missing_version_reason() -> Seq<char> {
    "missing purgery_version"@
}

/// What a version check must say of a probe.
pub open spec fn check_matches(probe: ProbeView, check: TomlVersionCheck) -> bool {
    match probe {
        ProbeView::Version(version) => if compatible(version) {
            check is Compatible
        } else {
            check matches TomlVersionCheck::Incompatible { reason }
                && reason@ == foreign_version_reason(version)
        },
        ProbeView::Missing => check matches TomlVersionCheck::Incompatible { reason }
            && reason@ == missing_version_reason(),
        ProbeView::Invalid(found) => check matches TomlVersionCheck::InvalidToml { error }
            && error@ == found,
    }
}

/// Whether a probe found a version of this server's release line.
pub open spec fn probe_compatible(probe: ProbeView) -> bool {
    match probe {
        ProbeView::Version(version) => compatible(version),
        _ => false,
    }
}

/// Holds a probed document against this server.
pub fn check_probe(probe: &VersionProbe) -> (check: TomlVersionCheck)
    ensures
        check_matches(probe@, check),
{
    match probe {
        VersionProbe::Version(version) => {
            if is_compatible(version.as_str()) {
                TomlVersionCheck::Compatible
            } else {
                TomlVersionCheck::Incompatible {
                    reason: text::cat4(
                        "incompatible purgery_version: producer ",
                        version.as_str(),
                        ", current ",
                        current_purgery_version(),
                    ),
                }
            }
        },
        VersionProbe::Missing => TomlVersionCheck::Incompatible {
            reason: "missing purgery_version".to_owned(),
        },
        VersionProbe::Invalid(error) => TomlVersionCheck::InvalidToml { error: error.clone() },
    }
}

/// Whether a probe found a version of this server's release line.
pub fn is_probe_compatible(probe: &VersionProbe) -> (ok: bool)
    ensures
        ok == probe_compatible(probe@),
{
    match probe {
        VersionProbe::Version(version) => is_compatible(version.as_str()),
        _ => false,
    }
}

/// What this server writes, this server understands.
pub proof fn own_version_is_compatible()
    ensures
        compatible(current_version()),
{
    reveal_strlit("0.1.0");
    let v = current_version();
    assert(next_dot(v, 0) == 1) by {
        reveal_with_fuel(next_dot, 3);
    }
    assert(next_dot(v, 2) == 3) by {
        reveal_with_fuel(next_dot, 3);
    }
}

/// Agreement of versions is an equivalence on the versions that have a major and
/// a minor number.
pub proof fn version_agreement_is_an_equivalence(a: Seq<char>, b: Seq<char>, c: Seq<char>)
    ensures
        major_minor(a) is Some ==> versions_agree(a, a),
        versions_agree(a, b) ==> versions_agree(b, a),
        versions_agree(a, b) && versions_agree(b, c) ==> versions_agree(a, c),
{
}

/// The answer to a version request, as TOML.
pub fn version_response() -> (answer: String)
    ensures
        answer@ == "protocol_version = "@ + text::decimal(PROTOCOL_VERSION as nat)
            + "\npurgery_version = \""@ + current_version() + "\"\n"@,
{
    let protocol = text::format_decimal(PROTOCOL_VERSION as u64);
    text::cat5(
        "protocol_version = ",
        protocol.as_str(),
        "\npurgery_version = \"",
        current_purgery_version(),
        "\"\n",
    )
}

proof fn lemma_next_dot(v: Seq<char>, from: int, at: int)
    requires
        0 <= from <= at <= v.len(),
        at < v.len() ==> v[at] == '.',
        forall|i: int| from <= i < at ==> v[i] != '.',
    ensures
        next_dot(v, from) == at,
    decreases at - from,
{
    if from < at {
        lemma_next_dot(v, from + 1, at);
    }
}

/// The major and the minor number of a version are what stands before its first and
/// between its first and its second dot, whatever follows.
pub proof fn versions_begin_with_major_and_minor(
    major: Seq<char>,
    minor: Seq<char>,
    rest: Seq<char>,
)
    requires
        !major.contains('.'),
        !minor.contains('.'),
    ensures
        major_minor(major + seq!['.'] + minor + seq!['.'] + rest) == Some((major, minor)),
        major_minor(major + seq!['.'] + minor) is None,
        major_minor(major) is None,
{
    let short = major + seq!['.'] + minor;
    let v = short + seq!['.'] + rest;
    let first = major.len() as int;
    let second = first + 1 + minor.len();
    assert forall|i: int| 0 <= i < first implies major[i] != '.' by {
        assert(major.contains(major[i]));
    }
    assert forall|i: int| 0 <= i < first implies v[i] != '.' && short[i] != '.' by {
        assert(v[i] == major[i] && short[i] == major[i]);
    }
    assert forall|i: int| first < i < second implies v[i] != '.' && short[i] != '.' by {
        assert(v[i] == minor[i - first - 1] && short[i] == minor[i - first - 1]);
        assert(minor.contains(minor[i - first - 1]));
    }
    lemma_next_dot(v, 0, first);
    lemma_next_dot(v, first + 1, second);
    assert(v.subrange(0, first) =~= major);
    assert(v.subrange(first + 1, second) =~= minor);
    lemma_next_dot(short, 0, first);
    lemma_next_dot(short, first + 1, second);
    lemma_next_dot(major, 0, first);
}

proof fn lemma_next_dot_is_first(v: Seq<char>, from: int)
    requires
        0 <= from,
    ensures
        next_dot(v, from) <= v.len(),
        from <= v.len() ==> from <= next_dot(v, from),
        next_dot(v, from) < v.len() ==> v[next_dot(v, from)] == '.',
        forall|i: int| from <= i < next_dot(v, from) ==> v[i] != '.',
    decreases v.len() - from,
{
    if from < v.len() && v[from] != '.' {
        lemma_next_dot_is_first(v, from + 1);
    }
}

/// This server understands exactly what a producer wrote whose version begins with the
/// major and the minor number of this server.
pub proof fn compatible_versions_begin_alike(producer: Seq<char>)
    ensures
        compatible(producer) <==> "0.1."@.is_prefix_of(producer),
{
    reveal_strlit("0.1.");
    reveal_strlit("0.1.0");
    let own = current_version();
    lemma_next_dot(own, 0, 1);
    lemma_next_dot(own, 2, 3);
    let first = next_dot(producer, 0);
    let second = next_dot(producer, first + 1);
    lemma_next_dot_is_first(producer, 0);
    lemma_next_dot_is_first(producer, first + 1);
    if compatible(producer) {
        assert(producer.subrange(0, first).len() == own.subrange(0, 1).len());
        assert(producer.subrange(0, first)[0] == own.subrange(0, 1)[0]);
        assert(producer.subrange(first + 1, second).len() == own.subrange(2, 3).len());
        assert(producer.subrange(first + 1, second)[0] == own.subrange(2, 3)[0]);
        assert("0.1."@ =~= producer.subrange(0, 4));
    }
    if "0.1."@.is_prefix_of(producer) {
        assert forall|i: int| 0 <= i < 4 implies producer[i] == "0.1."@[i] by {
            assert(producer.subrange(0, 4)[i] == producer[i]);
        }
        lemma_next_dot(producer, 0, 1);
        lemma_next_dot(producer, 2, 3);
        assert(producer.subrange(0, 1) =~= own.subrange(0, 1));
        assert(producer.subrange(2, 3) =~= own.subrange(2, 3));
    }
}

/// A document is let through if and only if it names a version of this server's release
/// line; one that names another or none is left alone, and one that cannot be read is
/// told apart from both.
pub proof fn only_compatible_documents_are_let_through(probe: ProbeView, check: TomlVersionCheck)
    requires
        check_matches(probe, check),
    ensures
        check is Compatible <==> (probe matches ProbeView::Version(v) && "0.1."@.is_prefix_of(v)),
        probe_compatible(probe) <==> check is Compatible,
        check is InvalidToml <==> probe is Invalid,
        probe matches ProbeView::Invalid(found) ==> check->error@ == found,
{
    match probe {
        ProbeView::Version(v) => {
            compatible_versions_begin_alike(v);
        },
        _ => {},
    }
}

/// A probe tells what stands under the key of the version: the text, that there is none, or
/// why the document cannot be read.
pub proof fn probes_tell_what_stands_there(probe: VersionProbe, found: Result<Option<Seq<char>>, Seq<char>>)
    ensures
        probe matches VersionProbe::Version(v) ==> probe@ == ProbeView::Version(v@),
        probe is Missing <==> probe@ is Missing,
        probe matches VersionProbe::Invalid(e) ==> probe@ == ProbeView::Invalid(e@),
        found matches Ok(Some(v)) ==> probe_of(found) == ProbeView::Version(v),
        found matches Ok(None) ==> probe_of(found) is Missing,
        found matches Err(e) ==> probe_of(found) == ProbeView::Invalid(e),
{
}

} // verus!
