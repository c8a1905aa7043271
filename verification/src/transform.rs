//! Transforms: programs of the operator that turn a copied entry into outputs.

use vstd::prelude::*;

use crate::model::TransformDefinition;
use crate::paths;
use crate::progress;
use crate::progress::ProgressUpdate;
use crate::subprocess;
use crate::subprocess::{Subprocess, SubprocessEnd, SubprocessEvent, SubprocessStep};
use crate::text;

verus! {

/// How often a running transform gives a sign of life, in seconds.
pub const DEFAULT_HEARTBEAT_SECS: u64 = 5;

/// A transform as it was found in the configuration.
#[derive(Debug)]
pub struct ResolvedTransform {
    pub name: String,
    pub def: TransformDefinition,
}

/// Where the outputs of a transform belong.
#[derive(Debug)]
pub struct ResolvedDestinationPlan {
    /// The destination that the client named.
    pub operand: String,
    pub target_path: String,
    pub target_directory: String,
}

// ---------------------------------------------------------------------------
// Templates
// ---------------------------------------------------------------------------

/// What the placeholders of a template stand for.
#[derive(Debug)]
pub struct Bindings {
    pub input: String,
    pub file_name: String,
    pub stem: String,
    pub target_directory: String,
}

/// What the placeholders of a template stand for, as characters.
pub struct BindingsView {
    pub input: Seq<char>,
    pub file_name: Seq<char>,
    pub stem: Seq<char>,
    pub target_directory: Seq<char>,
}

impl View for Bindings {
    type V = BindingsView;

    open spec fn view(&self) -> BindingsView {
        BindingsView {
            input: self.input@,
            file_name: self.file_name@,
            stem: self.stem@,
            target_directory: self.target_directory@,
        }
    }
}

/// Whether a text begins with another.
pub open spec fn begins_with(s: Seq<char>, prefix: Seq<char>) -> bool {
    prefix.len() <= s.len() && s.take(prefix.len() as int) == prefix
}

/// The placeholder at the beginning of a template, if there is one: its length and
/// what it stands for.
pub open spec fn placeholder(t: Seq<char>, b: BindingsView) -> Option<(nat, Seq<char>)> {
    if begins_with(t, "{input}"@) {
        Some((7, b.input))
    } else if begins_with(t, "{file_name}"@) {
        Some((11, b.file_name))
    } else if begins_with(t, "{stem}"@) {
        Some((6, b.stem))
    } else if begins_with(t, "{target_directory}"@) {
        Some((18, b.target_directory))
    } else {
        None
    }
}

/// A template with its placeholders replaced. What replaces a placeholder is not read
/// again.
pub open spec fn expand(t: Seq<char>, b: BindingsView) -> Seq<char>
    decreases t.len(),
{
    if t.len() == 0 {
        Seq::empty()
    } else {
        proof {
            reveal_strlit("{input}");
            reveal_strlit("{file_name}");
            reveal_strlit("{stem}");
            reveal_strlit("{target_directory}");
        }
        match placeholder(t, b) {
            Some((length, value)) => value + expand(t.skip(length as int), b),
            None => seq![t[0]] + expand(t.skip(1), b),
        }
    }
}

proof fn lemma_placeholder_lengths()
    ensures
        "{input}"@.len() == 7,
        "{file_name}"@.len() == 11,
        "{stem}"@.len() == 6,
        "{target_directory}"@.len() == 18,
{
    reveal_strlit("{input}");
    reveal_strlit("{file_name}");
    reveal_strlit("{stem}");
    reveal_strlit("{target_directory}");
}

/// Whether the text at a position begins with another.
fn has_at(s: &str, at: usize, prefix: &str) -> (yes: bool)
    requires
        at <= s@.len(),
    ensures
        yes == begins_with(s@.skip(at as int), prefix@),
{
    let length: usize = s.unicode_len();
    let wanted: usize = prefix.unicode_len();
    if length - at < wanted {
        return false;
    }
    let part = s.substring_char(at, at + wanted);
    assert(part@ =~= s@.skip(at as int).take(wanted as int));
    text::same_text(part, prefix)
}

/// Replaces the placeholders of a template.
pub fn expand_template(template: &str, b: &Bindings) -> (s: String)
    ensures
        s@ == expand(template@, b@),
{
    let length: usize = template.unicode_len();
    let mut out = String::new();
    let mut i: usize = 0;
    proof {
        lemma_placeholder_lengths();
        assert(template@.skip(0) =~= template@);
        assert(out@ + expand(template@.skip(0), b@) =~= expand(template@, b@));
    }
    while i < length
        invariant
            i <= length,
            length == template@.len(),
            out@ + expand(template@.skip(i as int), b@) == expand(template@, b@),
            "{input}"@.len() == 7,
            "{file_name}"@.len() == 11,
            "{stem}"@.len() == 6,
            "{target_directory}"@.len() == 18,
        decreases length - i,
    {
        let ghost rest = template@.skip(i as int);
        let ghost before = out@;
        if has_at(template, i, "{input}") {
            out.append(b.input.as_str());
            proof {
                assert(rest.skip(7) =~= template@.skip(i + 7));
                assert(out@ + expand(rest.skip(7), b@) =~= before + (b.input@ + expand(
                    rest.skip(7),
                    b@,
                )));
            }
            i = i + 7;
        } else if has_at(template, i, "{file_name}") {
            out.append(b.file_name.as_str());
            proof {
                assert(rest.skip(11) =~= template@.skip(i + 11));
                assert(out@ + expand(rest.skip(11), b@) =~= before + (b.file_name@ + expand(
                    rest.skip(11),
                    b@,
                )));
            }
            i = i + 11;
        } else if has_at(template, i, "{stem}") {
            out.append(b.stem.as_str());
            proof {
                assert(rest.skip(6) =~= template@.skip(i + 6));
                assert(out@ + expand(rest.skip(6), b@) =~= before + (b.stem@ + expand(
                    rest.skip(6),
                    b@,
                )));
            }
            i = i + 6;
        } else if has_at(template, i, "{target_directory}") {
            out.append(b.target_directory.as_str());
            proof {
                assert(rest.skip(18) =~= template@.skip(i + 18));
                assert(out@ + expand(rest.skip(18), b@) =~= before + (b.target_directory@
                    + expand(rest.skip(18), b@)));
            }
            i = i + 18;
        } else {
            let c = template.get_char(i);
            out.push(c);
            proof {
                assert(rest.skip(1) =~= template@.skip(i + 1));
                assert(rest[0] == c);
                assert(out@ + expand(rest.skip(1), b@) =~= before + (seq![c] + expand(
                    rest.skip(1),
                    b@,
                )));
            }
            i = i + 1;
        }
    }
    assert(template@.skip(i as int) =~= Seq::<char>::empty());
    assert(out@ + expand(template@.skip(i as int), b@) =~= out@);
    out
}

/// A template without braces is taken literally.
pub proof fn plain_templates_stay(t: Seq<char>, b: BindingsView)
    requires
        forall|i: int| 0 <= i < t.len() ==> t[i] != '{',
    ensures
        expand(t, b) == t,
    decreases t.len(),
{
    if t.len() > 0 {
        reveal_strlit("{input}");
        reveal_strlit("{file_name}");
        reveal_strlit("{stem}");
        reveal_strlit("{target_directory}");
        assert(begins_with(t, "{input}"@) ==> t.take(7)[0] == '{');
        assert(begins_with(t, "{file_name}"@) ==> t.take(11)[0] == '{');
        assert(begins_with(t, "{stem}"@) ==> t.take(6)[0] == '{');
        assert(begins_with(t, "{target_directory}"@) ==> t.take(18)[0] == '{');
        plain_templates_stay(t.skip(1), b);
        assert(seq![t[0]] + t.skip(1) =~= t);
    }
}

/// A placeholder stands for its value, whatever follows it, and what it stands for is not
/// read again.
pub proof fn placeholders_are_replaced(rest: Seq<char>, b: BindingsView)
    ensures
        expand("{input}"@ + rest, b) == b.input + expand(rest, b),
        expand("{file_name}"@ + rest, b) == b.file_name + expand(rest, b),
        expand("{stem}"@ + rest, b) == b.stem + expand(rest, b),
        expand("{target_directory}"@ + rest, b) == b.target_directory + expand(rest, b),
{
    reveal_strlit("{input}");
    reveal_strlit("{file_name}");
    reveal_strlit("{stem}");
    reveal_strlit("{target_directory}");
    let input = "{input}"@ + rest;
    assert(input.take(7) =~= "{input}"@);
    assert(input.skip(7) =~= rest);
    let file_name = "{file_name}"@ + rest;
    assert(file_name.take(11) =~= "{file_name}"@);
    assert(file_name.skip(11) =~= rest);
    assert(file_name.take(7)[1] == 'f' && "{input}"@[1] == 'i');
    let stem = "{stem}"@ + rest;
    assert(stem.take(6) =~= "{stem}"@);
    assert(stem.skip(6) =~= rest);
    assert(begins_with(stem, "{input}"@) ==> stem.take(7)[1] == 's' && "{input}"@[1] == 'i');
    assert(begins_with(stem, "{file_name}"@) ==> stem.take(11)[1] == 's' && "{file_name}"@[1]
        == 'f');
    let target = "{target_directory}"@ + rest;
    assert(target.take(18) =~= "{target_directory}"@);
    assert(target.skip(18) =~= rest);
    assert(target.take(7)[1] == 't' && "{input}"@[1] == 'i');
    assert(target.take(11)[1] == 't' && "{file_name}"@[1] == 'f');
    assert(target.take(6)[1] == 't' && "{stem}"@[1] == 's');
}

/// A character that begins no placeholder stands for itself, a brace too.
pub proof fn other_characters_stand_for_themselves(c: char, rest: Seq<char>, b: BindingsView)
    requires
        c == '{' ==> {
            &&& !"input}"@.is_prefix_of(rest)
            &&& !"file_name}"@.is_prefix_of(rest)
            &&& !"stem}"@.is_prefix_of(rest)
            &&& !"target_directory}"@.is_prefix_of(rest)
        },
    ensures
        expand(seq![c] + rest, b) == seq![c] + expand(rest, b),
{
    reveal_strlit("{input}");
    reveal_strlit("{file_name}");
    reveal_strlit("{stem}");
    reveal_strlit("{target_directory}");
    reveal_strlit("input}");
    reveal_strlit("file_name}");
    reveal_strlit("stem}");
    reveal_strlit("target_directory}");
    let t = seq![c] + rest;
    assert(t.skip(1) =~= rest);
    if begins_with(t, "{input}"@) {
        assert(t.take(7)[0] == '{');
        assert forall|i: int| 0 <= i < 6 implies rest[i] == "input}"@[i] by {
            assert(t.take(7)[i + 1] == "{input}"@[i + 1]);
        }
        assert("input}"@ =~= rest.take(6));
        assert("input}"@.is_prefix_of(rest));
    }
    if begins_with(t, "{file_name}"@) {
        assert(t.take(11)[0] == '{');
        assert forall|i: int| 0 <= i < 10 implies rest[i] == "file_name}"@[i] by {
            assert(t.take(11)[i + 1] == "{file_name}"@[i + 1]);
        }
        assert("file_name}"@ =~= rest.take(10));
        assert("file_name}"@.is_prefix_of(rest));
    }
    if begins_with(t, "{stem}"@) {
        assert(t.take(6)[0] == '{');
        assert forall|i: int| 0 <= i < 5 implies rest[i] == "stem}"@[i] by {
            assert(t.take(6)[i + 1] == "{stem}"@[i + 1]);
        }
        assert("stem}"@ =~= rest.take(5));
        assert("stem}"@.is_prefix_of(rest));
    }
    if begins_with(t, "{target_directory}"@) {
        assert(t.take(18)[0] == '{');
        assert forall|i: int| 0 <= i < 17 implies rest[i] == "target_directory}"@[i] by {
            assert(t.take(18)[i + 1] == "{target_directory}"@[i + 1]);
        }
        assert("target_directory}"@ =~= rest.take(17));
        assert("target_directory}"@.is_prefix_of(rest));
    }
}

// ---------------------------------------------------------------------------
// Names
// ---------------------------------------------------------------------------

/// The position of the last dot, or -1.
pub open spec fn last_dot(name: Seq<char>) -> int
    decreases name.len(),
{
    if name.len() == 0 {
        -1
    } else if name.last() == '.' {
        name.len() - 1
    } else {
        last_dot(name.drop_last())
    }
}

/// A file name without its extension. A dot at the beginning starts no extension.
pub open spec fn stem_of(name: Seq<char>) -> Seq<char> {
    if last_dot(name) <= 0 {
        name
    } else {
        name.take(last_dot(name))
    }
}

/// A file name without its extension.
pub fn file_stem(name: &str) -> (stem: String)
    ensures
        stem@ == stem_of(name@),
{
    let length: usize = name.unicode_len();
    let mut i: usize = length;
    assert(name@.take(length as int) =~= name@);
    while i > 0
        invariant
            i <= length,
            length == name@.len(),
            last_dot(name@) == last_dot(name@.take(i as int)),
        decreases i,
    {
        proof {
            assert(name@.take(i as int).drop_last() =~= name@.take(i - 1));
        }
        if name.get_char(i - 1) == '.' {
            if i - 1 == 0 {
                return name.to_owned();
            }
            let stem = name.substring_char(0, i - 1);
            assert(stem@ =~= name@.take(i - 1));
            return stem.to_owned();
        }
        i = i - 1;
    }
    name.to_owned()
}

proof fn lemma_last_dot(name: Seq<char>, at: int)
    requires
        -1 <= at < name.len(),
        at >= 0 ==> name[at] == '.',
        forall|i: int| at < i < name.len() ==> name[i] != '.',
    ensures
        last_dot(name) == at,
    decreases name.len(),
{
    if name.len() > 0 && at < name.len() - 1 {
        assert(name.last() == name[name.len() - 1]);
        lemma_last_dot(name.drop_last(), at);
    }
}

/// The stem of a name is what stands before its last dot, however long the extension is.
pub proof fn stems_end_at_the_last_dot(stem: Seq<char>, extension: Seq<char>)
    requires
        stem.len() > 0,
        !extension.contains('.'),
    ensures
        stem_of(stem + seq!['.'] + extension) == stem,
{
    let name = stem + seq!['.'] + extension;
    assert forall|i: int| stem.len() < i < name.len() implies name[i] != '.' by {
        assert(name[i] == extension[i - stem.len() - 1]);
        assert(extension.contains(extension[i - stem.len() - 1]));
    }
    lemma_last_dot(name, stem.len() as int);
    assert(name.take(stem.len() as int) =~= stem);
}

/// A name without a dot behind its first character is its own stem.
pub proof fn names_without_an_extension_are_their_stem(name: Seq<char>)
    requires
        forall|i: int| 0 < i < name.len() ==> name[i] != '.',
    ensures
        stem_of(name) == name,
{
    if name.len() > 0 && name[0] == '.' {
        lemma_last_dot(name, 0);
    } else {
        assert forall|i: int| -1 < i < name.len() implies name[i] != '.' by {}
        lemma_last_dot(name, -1);
    }
}

// ---------------------------------------------------------------------------
// Definitions
// ---------------------------------------------------------------------------

/// Whether a text occurs in another.
pub open spec fn occurs(s: Seq<char>, part: Seq<char>) -> bool {
    exists|i: int| 0 <= i <= s.len() && #[trigger] begins_with(s.skip(i), part)
}

/// What is wrong with a definition, if anything.
pub open spec fn definition_error(def: TransformDefinition) -> Option<Seq<char>> {
    if def.program@.len() == 0 {
        Some("program is empty"@)
    } else {
        match first_bad_output(def.expected_outputs@) {
            Some(i) => Some(
                "expected_outputs must not use {input}: '"@ + def.expected_outputs@[i]@ + "'"@,
            ),
            None => None,
        }
    }
}

/// The first expected output that names the input, which is no output.
pub open spec fn first_bad_output(outputs: Seq<String>) -> Option<int>
    decreases outputs.len(),
{
    if outputs.len() == 0 {
        None
    } else {
        match first_bad_output(outputs.drop_last()) {
            Some(i) => Some(i),
            None => if occurs(outputs.last()@, "{input}"@) {
                Some(outputs.len() - 1)
            } else {
                None
            },
        }
    }
}

fn occurs_in(s: &str, part: &str) -> (yes: bool)
    ensures
        yes == occurs(s@, part@),
{
    let length: usize = s.unicode_len();
    let mut i: usize = 0;
    loop
        invariant
            i <= length,
            length == s@.len(),
            forall|j: int| 0 <= j < i ==> !#[trigger] begins_with(s@.skip(j), part@),
        decreases length - i,
    {
        if has_at(s, i, part) {
            return true;
        }
        if i == length {
            return false;
        }
        i = i + 1;
    }
}

/// Checks a definition: it names a program, and no expected output names the input.
pub fn validate_transform_definition(def: &TransformDefinition) -> (r: Result<(), String>)
    ensures
        match definition_error(*def) {
            Some(error) => r matches Err(e) && e@ == error,
            None => r is Ok,
        },
{
    if def.program.as_str().is_empty() {
        return Err("program is empty".to_owned());
    }
    let outputs = &def.expected_outputs;
    let mut i: usize = 0;
    assert(outputs@.take(0) =~= Seq::<String>::empty());
    while i < outputs.len()
        invariant
            i <= outputs.len(),
            *outputs == def.expected_outputs,
            def.program@.len() > 0,
            first_bad_output(outputs@.take(i as int)) is None,
        decreases outputs.len() - i,
    {
        proof {
            assert(outputs@.take(i + 1).drop_last() =~= outputs@.take(i as int));
            assert(outputs@.take(i + 1).last() == outputs@[i as int]);
        }
        if occurs_in(outputs[i].as_str(), "{input}") {
            proof {
                lemma_first_bad_output_stays(outputs@, i as int);
            }
            return Err(
                text::cat3(
                    "expected_outputs must not use {input}: '",
                    outputs[i].as_str(),
                    "'",
                ),
            );
        }
        i = i + 1;
    }
    assert(outputs@.take(i as int) =~= outputs@);
    Ok(())
}

proof fn lemma_first_bad_output_stays(outputs: Seq<String>, i: int)
    requires
        0 <= i < outputs.len(),
        first_bad_output(outputs.take(i + 1)) == Some(i),
    ensures
        first_bad_output(outputs) == Some(i),
    decreases outputs.len(),
{
    if i + 1 == outputs.len() {
        assert(outputs.take(i + 1) =~= outputs);
    } else {
        assert(outputs.drop_last().take(i + 1) =~= outputs.take(i + 1));
        lemma_first_bad_output_stays(outputs.drop_last(), i);
    }
}

// ---------------------------------------------------------------------------
// What a transform runs
// ---------------------------------------------------------------------------

/// What the placeholders stand for when a transform works on a path.
pub open spec fn bindings_of(
    work_path: Seq<char>,
    file_name: Seq<char>,
    target_directory: Seq<char>,
) -> BindingsView {
    BindingsView { input: work_path, file_name, stem: stem_of(file_name), target_directory }
}

/// The name that stands for a path without one.
pub open spec fn name_or(found: Option<Seq<char>>, otherwise: Seq<char>) -> Seq<char> {
    match found {
        Some(name) => name,
        None => otherwise,
    }
}

fn bind(work_path: &str, file_name: &str, target_directory: &str) -> (b: Bindings)
    ensures
        b@ == bindings_of(work_path@, file_name@, target_directory@),
{
    Bindings {
        input: work_path.to_owned(),
        file_name: file_name.to_owned(),
        stem: file_stem(file_name),
        target_directory: target_directory.to_owned(),
    }
}

/// The templates of a list, expanded.
pub open spec fn expand_all(templates: Seq<String>, b: BindingsView) -> Seq<Seq<char>> {
    templates.map_values(|t: String| expand(t@, b))
}

fn expand_list(templates: &Vec<String>, b: &Bindings) -> (list: Vec<String>)
    ensures
        text::texts(list@) == expand_all(templates@, b@),
{
    let mut list: Vec<String> = Vec::new();
    let mut i: usize = 0;
    while i < templates.len()
        invariant
            i <= templates.len(),
            list@.len() == i,
            forall|j: int| 0 <= j < i ==> (#[trigger] list@[j])@ == expand(templates@[j]@, b@),
        decreases templates.len() - i,
    {
        list.push(expand_template(templates[i].as_str(), b));
        i = i + 1;
    }
    assert(text::texts(list@) =~= expand_all(templates@, b@));
    list
}

/// The arguments with which a transform is run on a work path.
pub fn build_args_for_target(
    def: &TransformDefinition,
    work_path: &str,
    file_name: &str,
    target: &ResolvedDestinationPlan,
) -> (args: Vec<String>)
    ensures
        text::texts(args@) == expand_all(
            def.args@,
            bindings_of(work_path@, file_name@, target.target_directory@),
        ),
{
    let b = bind(work_path, file_name, target.target_directory.as_str());
    expand_list(&def.args, &b)
}

/// The paths at which outputs are expected: below the target directory, unless an
/// output is named by an absolute path.
pub open spec fn output_paths(
    templates: Seq<String>,
    b: BindingsView,
    target_directory: Seq<char>,
) -> Seq<Seq<char>> {
    templates.map_values(|t: String| paths::path_join(target_directory, expand(t@, b)))
}

/// The paths at which the outputs of a transform are expected.
pub fn resolve_expected_outputs_for_target(
    def: &TransformDefinition,
    work_path: &str,
    file_name: &str,
    target: &ResolvedDestinationPlan,
) -> (outputs: Vec<String>)
    ensures
        text::texts(outputs@) == output_paths(
            def.expected_outputs@,
            bindings_of(work_path@, file_name@, target.target_directory@),
            target.target_directory@,
        ),
{
    let b = bind(work_path, file_name, target.target_directory.as_str());
    let templates = &def.expected_outputs;
    let mut outputs: Vec<String> = Vec::new();
    let mut i: usize = 0;
    while i < templates.len()
        invariant
            i <= templates.len(),
            outputs@.len() == i,
            forall|j: int|
                0 <= j < i ==> (#[trigger] outputs@[j])@ == paths::path_join(
                    target.target_directory@,
                    expand(templates@[j]@, b@),
                ),
        decreases templates.len() - i,
    {
        let name = expand_template(templates[i].as_str(), &b);
        outputs.push(paths::join(target.target_directory.as_str(), name.as_str()));
        i = i + 1;
    }
    assert(text::texts(outputs@) =~= output_paths(
        def.expected_outputs@,
        b@,
        target.target_directory@,
    ));
    outputs
}

/// What is needed to run a transform on an entry.
#[derive(Debug)]
pub struct TransformPlan {
    pub program: String,
    pub args: Vec<String>,
    /// The directory in which the program runs: that of the copy it works on.
    pub current_dir: String,
    /// Where the outputs are expected.
    pub outputs: Vec<String>,
    pub heartbeat_secs: u64,
}

/// Why a transform is not run, if it is not.
pub open spec fn transform_refusal(
    name: Seq<char>,
    def: TransformDefinition,
    work_parent: Option<Seq<char>>,
) -> Option<Seq<char>> {
    match definition_error(def) {
        Some(error) => Some(
            "transform '"@ + name + "' definition is invalid: "@ + error,
        ),
        None => if work_parent is None {
            Some("work path has no parent directory"@)
        } else {
            None
        },
    }
}

/// Whether a plan runs a transform on a work path for a target.
pub open spec fn is_transform_plan(
    plan: TransformPlan,
    def: TransformDefinition,
    work_path: Seq<char>,
    work_parent: Seq<char>,
    file_name: Seq<char>,
    target_directory: Seq<char>,
    heartbeat_secs: u64,
) -> bool {
    let b = bindings_of(work_path, file_name, target_directory);
    &&& plan.program@ == def.program@
    &&& text::texts(plan.args@) == expand_all(def.args@, b)
    &&& plan.current_dir@ == work_parent
    &&& text::texts(plan.outputs@) == output_paths(def.expected_outputs@, b, target_directory)
    &&& plan.heartbeat_secs == heartbeat_secs
}

proof fn lemma_first_bad_output(outputs: Seq<String>)
    ensures
        match first_bad_output(outputs) {
            None => forall|i: int|
                0 <= i < outputs.len() ==> !occurs((#[trigger] outputs[i])@, "{input}"@),
            Some(i) => {
                &&& 0 <= i < outputs.len()
                &&& occurs(outputs[i]@, "{input}"@)
                &&& forall|j: int|
                    0 <= j < i ==> !occurs((#[trigger] outputs[j])@, "{input}"@)
            },
        },
    decreases outputs.len(),
{
    if outputs.len() > 0 {
        let shorter = outputs.drop_last();
        lemma_first_bad_output(shorter);
        assert forall|j: int| 0 <= j < shorter.len() implies shorter[j] == #[trigger] outputs[j] by {}
    }
}

/// A definition is accepted if and only if it names a program and none of its expected
/// outputs holds the placeholder of the input, at whatever place.
pub proof fn definitions_need_a_program_and_true_outputs(def: TransformDefinition)
    ensures
        definition_error(def) is None <==> {
            &&& def.program@.len() > 0
            &&& forall|i: int, before: Seq<char>, behind: Seq<char>|
                0 <= i < def.expected_outputs@.len() ==> (#[trigger] def.expected_outputs@[i])@
                    != #[trigger] (before + "{input}"@ + behind)
        },
{
    let outputs = def.expected_outputs@;
    lemma_first_bad_output(outputs);
    assert forall|i: int, before: Seq<char>, behind: Seq<char>|
        0 <= i < outputs.len() && !occurs(outputs[i]@, "{input}"@) implies (
    #[trigger] outputs[i])@ != #[trigger] (before + "{input}"@ + behind) by {
        let whole = before + "{input}"@ + behind;
        let at = before.len() as int;
        assert(whole.skip(at).take("{input}"@.len() as int) =~= "{input}"@);
        if outputs[i]@ == whole {
            assert(begins_with(outputs[i]@.skip(at), "{input}"@));
        }
    }
    match first_bad_output(outputs) {
        Some(i) => {
            let s = outputs[i]@;
            let at = choose|at: int|
                0 <= at <= s.len() && #[trigger] begins_with(s.skip(at), "{input}"@);
            let length = "{input}"@.len() as int;
            let before = s.take(at);
            let behind = s.skip(at).skip(length);
            assert(s.skip(at).take(length) == "{input}"@);
            assert forall|k: int| 0 <= k < length implies s[at + k] == "{input}"@[k] by {
                assert(s.skip(at).take(length)[k] == s[at + k]);
            }
            assert(s =~= before + "{input}"@ + behind);
        },
        None => {},
    }
}

/// A plan runs the program of the definition in the directory of the copy, with one
/// argument for each template and one expected output for each template, in order, each
/// with its placeholders replaced: the copy, its file name, the stem of that name and the
/// target directory.
pub proof fn plans_follow_their_definition(
    plan: TransformPlan,
    def: TransformDefinition,
    work_path: Seq<char>,
    work_parent: Seq<char>,
    file_name: Seq<char>,
    target_directory: Seq<char>,
    heartbeat_secs: u64,
)
    requires
        is_transform_plan(
            plan,
            def,
            work_path,
            work_parent,
            file_name,
            target_directory,
            heartbeat_secs,
        ),
    ensures
        plan.program@ == def.program@,
        plan.current_dir@ == work_parent,
        plan.heartbeat_secs == heartbeat_secs,
        plan.args@.len() == def.args@.len(),
        plan.outputs@.len() == def.expected_outputs@.len(),
        forall|i: int, b: BindingsView|
            0 <= i < def.args@.len() && b.input == work_path && b.file_name == file_name && b.stem
                == stem_of(file_name) && b.target_directory == target_directory ==> (
            #[trigger] plan.args@[i])@ == #[trigger] expand(def.args@[i]@, b),
        forall|i: int, b: BindingsView|
            0 <= i < def.expected_outputs@.len() && b.input == work_path && b.file_name == file_name
                && b.stem == stem_of(file_name) && b.target_directory == target_directory ==> (
            #[trigger] plan.outputs@[i])@ == paths::path_join(
                target_directory,
                #[trigger] expand(def.expected_outputs@[i]@, b),
            ),
{
    let mine = bindings_of(work_path, file_name, target_directory);
    assert(text::texts(plan.args@).len() == plan.args@.len());
    assert(text::texts(plan.outputs@).len() == plan.outputs@.len());
    assert forall|i: int, b: BindingsView|
        0 <= i < def.args@.len() && b.input == work_path && b.file_name == file_name && b.stem
            == stem_of(file_name) && b.target_directory == target_directory implies (
    #[trigger] plan.args@[i])@ == #[trigger] expand(def.args@[i]@, b) by {
        assert(b == mine);
        assert(text::texts(plan.args@)[i] == plan.args@[i]@);
    }
    assert forall|i: int, b: BindingsView|
        0 <= i < def.expected_outputs@.len() && b.input == work_path && b.file_name == file_name
            && b.stem == stem_of(file_name) && b.target_directory == target_directory implies (
    #[trigger] plan.outputs@[i])@ == paths::path_join(
        target_directory,
        #[trigger] expand(def.expected_outputs@[i]@, b),
    ) by {
        assert(b == mine);
        assert(text::texts(plan.outputs@)[i] == plan.outputs@[i]@);
    }
}

/// A transform is run if and only if its definition is accepted and the copy lies in a
/// directory.
pub proof fn sound_transforms_are_run(
    name: Seq<char>,
    def: TransformDefinition,
    work_parent: Option<Seq<char>>,
)
    ensures
        transform_refusal(name, def, work_parent) is None <==> definition_error(def) is None
            && work_parent is Some,
{
}

/// Plans a transform from what the path library said of the work path: its parent and
/// its file name.
pub fn plan_transform(
    resolved: &ResolvedTransform,
    work_path: &str,
    work_parent: &Option<String>,
    file_name: &str,
    target: &ResolvedDestinationPlan,
    heartbeat_secs: u64,
) -> (r: Result<TransformPlan, String>)
    ensures
        match transform_refusal(resolved.name@, resolved.def, text::opt_text(*work_parent)) {
            Some(error) => r matches Err(e) && e@ == error,
            None => r matches Ok(plan) && is_transform_plan(
                plan,
                resolved.def,
                work_path@,
                (*work_parent)->0@,
                file_name@,
                target.target_directory@,
                heartbeat_secs,
            ),
        },
{
    match validate_transform_definition(&resolved.def) {
        Err(error) => {
            return Err(
                text::cat4(
                    "transform '",
                    resolved.name.as_str(),
                    "' definition is invalid: ",
                    error.as_str(),
                ),
            );
        },
        Ok(()) => {},
    }
    match work_parent {
        None => Err("work path has no parent directory".to_owned()),
        Some(parent) => Ok(
            TransformPlan {
                program: resolved.def.program.clone(),
                args: build_args_for_target(&resolved.def, work_path, file_name, target),
                current_dir: parent.clone(),
                outputs: resolve_expected_outputs_for_target(
                    &resolved.def,
                    work_path,
                    file_name,
                    target,
                ),
                heartbeat_secs,
            },
        ),
    }
}

/// Plans a transform on a work path, with a sign of life at the given interval.
pub fn apply_transform_for_target_with_heartbeat(
    resolved: &ResolvedTransform,
    work_path: &str,
    target: &ResolvedDestinationPlan,
    heartbeat_secs: u64,
) -> (r: Result<TransformPlan, String>)
    ensures
        match transform_refusal(resolved.name@, resolved.def, paths::path_parent(work_path@)) {
            Some(error) => r matches Err(e) && e@ == error,
            None => r matches Ok(plan) && is_transform_plan(
                plan,
                resolved.def,
                work_path@,
                paths::path_parent(work_path@)->0,
                name_or(paths::path_file_name(work_path@), "output"@),
                target.target_directory@,
                heartbeat_secs,
            ),
        },
{
    let work_parent = paths::parent(work_path);
    let file_name = file_name_or_output(work_path);
    plan_transform(resolved, work_path, &work_parent, file_name.as_str(), target, heartbeat_secs)
}

/// Plans a transform on a work path, with a sign of life at the usual interval.
pub fn apply_transform_for_target(
    resolved: &ResolvedTransform,
    work_path: &str,
    target: &ResolvedDestinationPlan,
) -> (r: Result<TransformPlan, String>)
    ensures
        match transform_refusal(resolved.name@, resolved.def, paths::path_parent(work_path@)) {
            Some(error) => r matches Err(e) && e@ == error,
            None => r matches Ok(plan) && is_transform_plan(
                plan,
                resolved.def,
                work_path@,
                paths::path_parent(work_path@)->0,
                name_or(paths::path_file_name(work_path@), "output"@),
                target.target_directory@,
                DEFAULT_HEARTBEAT_SECS,
            ),
        },
{
    apply_transform_for_target_with_heartbeat(resolved, work_path, target, DEFAULT_HEARTBEAT_SECS)
}

fn file_name_or_output(path: &str) -> (name: String)
    ensures
        name@ == name_or(paths::path_file_name(path@), "output"@),
{
    match paths::file_name(path) {
        Some(name) => name,
        None => "output".to_owned(),
    }
}

/// The target of an entry that is placed in a directory.
pub fn directory_target(work_path: &str, destination_root: &str, target_directory: &str) -> (target:
    ResolvedDestinationPlan)
    ensures
        target.operand@ == destination_root@,
        target.target_directory@ == target_directory@,
        target.target_path@ == paths::path_join(
            target_directory@,
            name_or(paths::path_file_name(work_path@), "output"@),
        ),
{
    let name = file_name_or_output(work_path);
    ResolvedDestinationPlan {
        operand: destination_root.to_owned(),
        target_path: paths::join(target_directory, name.as_str()),
        target_directory: target_directory.to_owned(),
    }
}

/// Plans a transform whose outputs belong into a directory, with a sign of life at
/// the given interval.
pub fn apply_transform_with_heartbeat(
    resolved: &ResolvedTransform,
    work_path: &str,
    destination_root: &str,
    target_directory: &str,
    heartbeat_secs: u64,
) -> (r: Result<TransformPlan, String>)
    ensures
        match transform_refusal(resolved.name@, resolved.def, paths::path_parent(work_path@)) {
            Some(error) => r matches Err(e) && e@ == error,
            None => r matches Ok(plan) && is_transform_plan(
                plan,
                resolved.def,
                work_path@,
                paths::path_parent(work_path@)->0,
                name_or(paths::path_file_name(work_path@), "output"@),
                target_directory@,
                heartbeat_secs,
            ),
        },
{
    let target = directory_target(work_path, destination_root, target_directory);
    apply_transform_for_target_with_heartbeat(resolved, work_path, &target, heartbeat_secs)
}

/// Plans a transform whose outputs belong into a directory, with a sign of life at
/// the usual interval.
pub fn apply_transform(
    resolved: &ResolvedTransform,
    work_path: &str,
    destination_root: &str,
    target_directory: &str,
) -> (r: Result<TransformPlan, String>)
    ensures
        match transform_refusal(resolved.name@, resolved.def, paths::path_parent(work_path@)) {
            Some(error) => r matches Err(e) && e@ == error,
            None => r matches Ok(plan) && is_transform_plan(
                plan,
                resolved.def,
                work_path@,
                paths::path_parent(work_path@)->0,
                name_or(paths::path_file_name(work_path@), "output"@),
                target_directory@,
                DEFAULT_HEARTBEAT_SECS,
            ),
        },
{
    let target = directory_target(work_path, destination_root, target_directory);
    apply_transform_for_target(resolved, work_path, &target)
}

// ---------------------------------------------------------------------------
// Watching a transform, and its result
// ---------------------------------------------------------------------------

/// The report that belongs to a step of a transform.
pub fn transform_report(
    run: &Subprocess,
    name: &str,
    entry_index: usize,
    entry_total: usize,
    current_entry: &str,
) -> (report: Option<ProgressUpdate>)
    ensures
        match run.step {
            SubprocessStep::ReportStarted => report matches Some(update) && is_transform_report(
                update,
                "transform_started"@,
                name@,
                entry_index,
                entry_total,
                current_entry@,
            ),
            SubprocessStep::ReportRunning => report matches Some(update) && is_transform_report(
                update,
                "transform_running"@,
                name@,
                entry_index,
                entry_total,
                current_entry@,
            ),
            SubprocessStep::ReportFinished => report matches Some(update) && is_transform_report(
                update,
                "transform_finished"@,
                name@,
                entry_index,
                entry_total,
                current_entry@,
            ),
            _ => report is None,
        },
{
    match run.step {
        SubprocessStep::ReportStarted => Some(
            ProgressUpdate::new("transform_started", entry_index, entry_total, current_entry, name),
        ),
        SubprocessStep::ReportRunning => Some(
            ProgressUpdate::new("transform_running", entry_index, entry_total, current_entry, name),
        ),
        SubprocessStep::ReportFinished => Some(
            ProgressUpdate::new(
                "transform_finished",
                entry_index,
                entry_total,
                current_entry,
                name,
            ),
        ),
        _ => None,
    }
}

/// Whether a report is one on a transform, with the entry passed through.
pub open spec fn is_transform_report(
    update: ProgressUpdate,
    state: Seq<char>,
    name: Seq<char>,
    entry_index: usize,
    entry_total: usize,
    current_entry: Seq<char>,
) -> bool {
    &&& update.state@ == state
    &&& update.entry_index == entry_index
    &&& update.entry_total == entry_total
    &&& update.current_entry@ == current_entry
    &&& update.current_transform@ == name
}

/// A report on a named transform of an entry that exists is always accepted.
pub proof fn transform_reports_are_valid(
    update: ProgressUpdate,
    state: Seq<char>,
    name: Seq<char>,
    entry_index: usize,
    entry_total: usize,
    current_entry: Seq<char>,
)
    requires
        is_transform_report(update, state, name, entry_index, entry_total, current_entry),
        progress::transform_level(state),
        entry_index < entry_total,
        current_entry.len() > 0,
        name.len() > 0,
    ensures
        progress::update_error(update) is None,
{
    reveal_strlit("processing_started");
    reveal_strlit("publishing_status");
    reveal_strlit("processing_entry");
    reveal_strlit("transform_started");
    reveal_strlit("transform_running");
    reveal_strlit("transform_finished");
    assert(state[0] == 't');
    assert("processing_started"@[0] == 'p');
    assert("publishing_status"@[0] == 'p');
    assert("processing_entry"@[0] == 'p');
}

/// What `String::from_utf8_lossy` makes of bytes.
pub uninterp spec fn lossy_text(bytes: Seq<u8>) -> Seq<char>;

/// White space: the characters with the Unicode property `White_Space`.
pub open spec fn white_space(c: char) -> bool {
    ||| '\u{9}' <= c <= '\u{d}'
    ||| c == ' '
    ||| c == '\u{85}'
    ||| c == '\u{a0}'
    ||| c == '\u{1680}'
    ||| '\u{2000}' <= c <= '\u{200a}'
    ||| c == '\u{2028}'
    ||| c == '\u{2029}'
    ||| c == '\u{202f}'
    ||| c == '\u{205f}'
    ||| c == '\u{3000}'
}

/// A text without white space at its ends.
pub open spec fn trimmed(s: Seq<char>) -> Seq<char>
    decreases s.len(),
{
    if s.len() == 0 {
        s
    } else if white_space(s.first()) {
        trimmed(s.drop_first())
    } else if white_space(s.last()) {
        trimmed(s.drop_last())
    } else {
        s
    }
}

/// Trimming takes away the white space at both ends of a text and nothing else.
pub proof fn trimming_takes_away_the_ends(before: Seq<char>, kept: Seq<char>, behind: Seq<char>)
    requires
        forall|i: int| 0 <= i < before.len() ==> white_space(#[trigger] before[i]),
        forall|i: int| 0 <= i < behind.len() ==> white_space(#[trigger] behind[i]),
        kept.len() > 0 ==> !white_space(kept.first()) && !white_space(kept.last()),
    ensures
        trimmed(before + kept + behind) == kept,
    decreases before.len() + behind.len(),
{
    let whole = before + kept + behind;
    if before.len() > 0 {
        assert(whole.first() == before[0]);
        trimming_takes_away_the_ends(before.drop_first(), kept, behind);
        assert(whole.drop_first() =~= before.drop_first() + kept + behind);
    } else if kept.len() == 0 {
        if behind.len() > 0 {
            assert(whole.first() == behind[0]);
            trimming_takes_away_the_ends(before, kept, behind.drop_first());
            assert(whole.drop_first() =~= before + kept + behind.drop_first());
        } else {
            assert(whole =~= kept);
        }
    } else if behind.len() > 0 {
        assert(whole.first() == kept.first());
        assert(whole.last() == behind[behind.len() - 1]);
        trimming_takes_away_the_ends(before, kept, behind.drop_last());
        assert(whole.drop_last() =~= before + kept + behind.drop_last());
    } else {
        assert(whole =~= kept);
    }
}

/// `String::from_utf8_lossy` of the standard library: bytes as text, with replacement
/// characters for what is not UTF-8. The contract claims that valid UTF-8 is decoded
/// as it stands, and that the text is determined by the bytes in any case.
#[verifier::external_body]
fn utf8_lossy(bytes: &Vec<u8>) -> (s: String)
    ensures
        s@ == lossy_text(bytes@),
        vstd::utf8::valid_utf8(bytes@) ==> s@ == vstd::utf8::decode_utf8(bytes@),
{
    String::from_utf8_lossy(bytes).into_owned()
}

/// `str::trim` of the standard library: a text with leading and trailing white space
/// removed, where white space is the Unicode property `White_Space`.
#[verifier::external_body]
fn trim(s: &str) -> (kept: String)
    ensures
        kept@ == trimmed(s@),
{
    s.trim().to_owned()
}

/// Bytes as text: as they stand where they are UTF-8, and otherwise with replacement
/// characters.
pub open spec fn readable_text(bytes: Seq<u8>) -> Seq<char> {
    if vstd::utf8::valid_utf8(bytes) {
        vstd::utf8::decode_utf8(bytes)
    } else {
        lossy_text(bytes)
    }
}

/// What is said of a captured stream.
pub open spec fn stream_text(captured: Result<Vec<u8>, String>, stream: Seq<char>) -> Seq<char> {
    match captured {
        Ok(bytes) => readable_text(bytes@),
        Err(error) => "("@ + stream + " unavailable: "@ + error@ + ")"@,
    }
}

fn describe_stream(captured: &Result<Vec<u8>, String>, stream: &str) -> (s: String)
    ensures
        s@ == stream_text(*captured, stream@),
{
    match captured {
        Ok(bytes) => utf8_lossy(bytes),
        Err(error) => text::cat5("(", stream, " unavailable: ", error.as_str(), ")"),
    }
}

/// How a failed transform is reported, from its exit code and what is left of its
/// output.
pub open spec fn program_failure_text(
    name: Seq<char>,
    code: Option<i32>,
    stdout: Seq<char>,
    stderr: Seq<char>,
) -> Seq<char> {
    name + " failed with exit code "@ + subprocess::exit_code_text(code) + "\nstdout: "@ + stdout
        + "\nstderr: "@ + stderr
}

/// How a failed transform is reported, from what is left of its output.
pub fn program_failure_message(
    name: &str,
    code: Option<i32>,
    stdout: &str,
    stderr: &str,
) -> (m: String)
    ensures
        m@ == program_failure_text(name@, code, stdout@, stderr@),
{
    let exit = subprocess::describe_exit_code(code);
    text::cat7(
        name,
        " failed with exit code ",
        exit.as_str(),
        "\nstdout: ",
        stdout,
        "\nstderr: ",
        stderr,
    )
}

/// How a failed transform is reported, from what was captured of its output.
pub fn describe_program_failure(
    name: &str,
    code: Option<i32>,
    stdout: &Result<Vec<u8>, String>,
    stderr: &Result<Vec<u8>, String>,
) -> (m: String)
    ensures
        m@ == program_failure_text(
            name@,
            code,
            trimmed(stream_text(*stdout, "stdout"@)),
            trimmed(stream_text(*stderr, "stderr"@)),
        ),
{
    let out = trim(describe_stream(stdout, "stdout").as_str());
    let err = trim(describe_stream(stderr, "stderr").as_str());
    program_failure_message(name, code, out.as_str(), err.as_str())
}

/// What is known when a transform has ended: the exit code, what was captured of the
/// output, and what the system said last.
#[derive(Debug)]
pub struct TransformDetails {
    pub code: Option<i32>,
    pub stdout: Result<Vec<u8>, String>,
    pub stderr: Result<Vec<u8>, String>,
    pub detail: String,
}

/// Why a transform failed, if it did.
pub open spec fn transform_failure(
    end: SubprocessEnd,
    name: Seq<char>,
    outputs: Seq<String>,
    details: TransformDetails,
) -> Option<Seq<char>> {
    match end {
        SubprocessEnd::Finished => None,
        SubprocessEnd::SpawnFailed => Some(
            "failed to spawn "@ + name + ": "@ + details.detail@,
        ),
        SubprocessEnd::WaitFailed => Some(
            "failed to wait for "@ + name + ": "@ + details.detail@,
        ),
        SubprocessEnd::ProgramFailed => Some(
            program_failure_text(
                name,
                details.code,
                trimmed(stream_text(details.stdout, "stdout"@)),
                trimmed(stream_text(details.stderr, "stderr"@)),
            ),
        ),
        SubprocessEnd::OutputsUnknown => Some(name + ": "@ + details.detail@),
        SubprocessEnd::OutputRefused(i, probe) => Some(
            subprocess::output_text(probe, outputs[i as int]@, ""@, details.detail@),
        ),
    }
}

/// A transform has a result if and only if its run finished; any other end is a failure.
pub proof fn only_finished_transforms_have_a_result(
    end: SubprocessEnd,
    name: Seq<char>,
    outputs: Seq<String>,
    details: TransformDetails,
)
    ensures
        transform_failure(end, name, outputs, details) is None <==> end is Finished,
{
}

/// The report on a failed program begins with its name, tells the exit code, and ends in
/// what is left of its two streams, each under its own heading.
pub proof fn failure_reports_hold_both_streams(
    name: Seq<char>,
    code: Option<i32>,
    stdout: Seq<char>,
    stderr: Seq<char>,
)
    ensures
        ({
            let heading = name + " failed with exit code "@;
            let report = program_failure_text(name, code, stdout, stderr);
            let first = heading + subprocess::exit_code_text(code);
            let second = first + ("\nstdout: "@ + stdout);
            &&& report == second + ("\nstderr: "@ + stderr)
        }),
{
    let report = program_failure_text(name, code, stdout, stderr);
    assert(report =~= name + " failed with exit code "@ + subprocess::exit_code_text(code) + (
    "\nstdout: "@ + stdout) + ("\nstderr: "@ + stderr));
}

/// Whether a run is over and owed just the outputs of a transform.
pub open spec fn is_over_with(run: Subprocess, outputs: Seq<String>) -> bool {
    run.step matches SubprocessStep::Over(end) && match end {
        SubprocessEnd::Finished => run.outputs == outputs.len(),
        SubprocessEnd::OutputRefused(i, _) => run.outputs == outputs.len() && i < outputs.len(),
        _ => true,
    }
}

/// The result of a transform whose run is over: its outputs, each once, or why it
/// failed.
pub fn transform_result(
    run: &Subprocess,
    name: &str,
    outputs: &Vec<String>,
    details: &TransformDetails,
) -> (r: Result<Vec<String>, String>)
    requires
        is_over_with(*run, outputs@),
    ensures
        match transform_failure(run.step->Over_0, name@, outputs@, *details) {
            Some(error) => r matches Err(e) && e@ == error,
            None => r matches Ok(list) && text::texts(list@) == subprocess::keep_first(
                text::texts(outputs@),
            ),
        },
{
    let end = match run.step {
        SubprocessStep::Over(end) => end,
        _ => SubprocessEnd::OutputsUnknown,
    };
    match end {
        SubprocessEnd::Finished => Ok(subprocess::drop_repetitions(outputs)),
        SubprocessEnd::SpawnFailed => Err(
            subprocess::spawn_message(name, details.detail.as_str()),
        ),
        SubprocessEnd::WaitFailed => Err(subprocess::wait_message(name, details.detail.as_str())),
        SubprocessEnd::ProgramFailed => Err(
            describe_program_failure(name, details.code, &details.stdout, &details.stderr),
        ),
        SubprocessEnd::OutputsUnknown => Err(text::cat3(name, ": ", details.detail.as_str())),
        SubprocessEnd::OutputRefused(i, probe) => Err(
            subprocess::output_message(probe, outputs[i].as_str(), "", details.detail.as_str()),
        ),
    }
}

/// What a transform hands on was inspected and accepted, each output of it, and holds
/// no path twice.
pub proof fn handed_on_outputs_were_accepted(
    events: Seq<SubprocessEvent>,
    name: Seq<char>,
    outputs: Seq<String>,
    details: TransformDetails,
    x: Seq<char>,
)
    requires
        is_over_with(subprocess::subprocess_history(true, events).run, outputs),
        transform_failure(
            subprocess::subprocess_history(true, events).run.step->Over_0,
            name,
            outputs,
            details,
        ) is None,
        subprocess::keep_first(text::texts(outputs)).contains(x),
    ensures
        subprocess::subprocess_history(true, events).succeeded,
        subprocess::keep_first(text::texts(outputs)).no_duplicates(),
        exists|k: int|
            0 <= k < outputs.len() && outputs[k]@ == x && subprocess::accepted(
                #[trigger] subprocess::subprocess_history(true, events).inspected[k],
            ),
{
    let h = subprocess::subprocess_history(true, events);
    subprocess::repetitions_are_dropped_and_nothing_else(text::texts(outputs));
    let k = choose|k: int| 0 <= k < outputs.len() && text::texts(outputs)[k] == x;
    subprocess::finished_programs_left_their_outputs(true, events, k);
    assert(subprocess::accepted(h.inspected[k]));
}

/// A path with a file name goes by that name, and one without by the name that stands for
/// it.
pub proof fn names_are_kept_where_there_are_any(name: Seq<char>, otherwise: Seq<char>)
    ensures
        name_or(Some(name), otherwise) == name,
        name_or(None, otherwise) == otherwise,
{
}

/// Of ASCII, the space and the characters from tab to carriage return are white space, and
/// no character that can be seen is.
pub proof fn visible_characters_are_no_white_space(c: char)
    ensures
        c as int == 32 || 9 <= c as int <= 13 ==> white_space(c),
        33 <= c as int <= 126 ==> !white_space(c),
{
}

/// What is said of a captured stream: its text where it was captured, as it stands where it
/// is UTF-8, and otherwise which stream it is and why there is nothing.
pub proof fn streams_are_told_or_explained(bytes: Vec<u8>, error: String, stream: Seq<char>)
    ensures
        vstd::utf8::valid_utf8(bytes@) ==> stream_text(Ok(bytes), stream)
            == vstd::utf8::decode_utf8(bytes@),
        !vstd::utf8::valid_utf8(bytes@) ==> stream_text(Ok(bytes), stream) == lossy_text(bytes@),
        stream_text(Err(error), stream) == "("@ + stream + " unavailable: "@ + error@ + ")"@,
{
}

/// What the placeholders stand for is what was bound to them.
pub proof fn bindings_are_taken_as_they_are(b: Bindings)
    ensures
        b@.input == b.input@,
        b@.file_name == b.file_name@,
        b@.stem == b.stem@,
        b@.target_directory == b.target_directory@,
{
}

} // verus!
