//! The vocabulary of the server: names, phases, documents and configuration.

use vstd::prelude::*;

use crate::text;
use crate::version::VersionProbe;

verus! {

/// A character that a client nickname or a run identifier may hold.
pub open spec fn name_char(c: char) -> bool {
    ||| 'a' <= c <= 'z'
    ||| 'A' <= c <= 'Z'
    ||| '0' <= c <= '9'
    ||| c == '-'
    ||| c == '_'
    ||| c == '.'
}

/// A name that can stand as one directory name: not empty, not hidden, and free
/// of separators and other special characters.
pub open spec fn valid_name(s: Seq<char>) -> bool {
    &&& s.len() > 0
    &&& s[0] != '.'
    &&& forall|i: int| 0 <= i < s.len() ==> name_char(#[trigger] s[i])
}

/// Whether a string is a valid name.
pub fn is_valid_name(s: &str) -> (ok: bool)
    ensures
        ok == valid_name(s@),
{
    let length: usize = s.unicode_len();
    if length == 0 {
        return false;
    }
    if s.get_char(0) == '.' {
        return false;
    }
    let mut i: usize = 0;
    while i < length
        invariant
            i <= length,
            length == s@.len(),
            forall|j: int| 0 <= j < i ==> name_char(#[trigger] s@[j]),
        decreases length - i,
    {
        let c = s.get_char(i);
        let ok = ('a' <= c && c <= 'z') || ('A' <= c && c <= 'Z') || ('0' <= c && c <= '9') || c
            == '-' || c == '_' || c == '.';
        if !ok {
            assert(!name_char(s@[i as int]));
            return false;
        }
        i = i + 1;
    }
    true
}

/// Why a string is refused as a name.
pub open spec fn name_refusal(s: Seq<char>) -> Seq<char> {
    "'"@ + s + "' is not a valid name"@
}

/// The name of a client.
#[derive(Debug)]
pub struct Nickname {
    value: String,
}

impl View for Nickname {
    type V = Seq<char>;

    closed spec fn view(&self) -> Seq<char> {
        self.value@
    }
}

impl Nickname {
    #[verifier::type_invariant]
    spec fn well_formed(self) -> bool {
        valid_name(self.value@)
    }

    /// Accepts a valid name.
    pub fn new(value: String) -> (r: Result<Nickname, String>)
        ensures
            r is Ok <==> valid_name(value@),
            r matches Ok(name) ==> name@ == value@,
            r matches Err(error) ==> error@ == name_refusal(value@),
    {
        if is_valid_name(value.as_str()) {
            Ok(Nickname { value })
        } else {
            Err(text::cat3("'", value.as_str(), "' is not a valid name"))
        }
    }

    pub fn as_str(&self) -> (s: &str)
        ensures
            s@ == self@,
            valid_name(s@),
    {
        proof {
            use_type_invariant(self);
        }
        self.value.as_str()
    }
}

impl Clone for Nickname {
    fn clone(&self) -> (copy: Nickname)
        ensures
            copy == *self,
    {
        proof {
            use_type_invariant(self);
        }
        Nickname { value: self.value.clone() }
    }
}

/// The identifier of a run, unique for its client.
#[derive(Debug)]
pub struct RunId {
    value: String,
}

impl View for RunId {
    type V = Seq<char>;

    closed spec fn view(&self) -> Seq<char> {
        self.value@
    }
}

impl RunId {
    #[verifier::type_invariant]
    spec fn well_formed(self) -> bool {
        valid_name(self.value@)
    }

    /// Accepts a valid name.
    pub fn new(value: String) -> (r: Result<RunId, String>)
        ensures
            r is Ok <==> valid_name(value@),
            r matches Ok(name) ==> name@ == value@,
            r matches Err(error) ==> error@ == name_refusal(value@),
    {
        if is_valid_name(value.as_str()) {
            Ok(RunId { value })
        } else {
            Err(text::cat3("'", value.as_str(), "' is not a valid name"))
        }
    }

    pub fn as_str(&self) -> (s: &str)
        ensures
            s@ == self@,
            valid_name(s@),
    {
        proof {
            use_type_invariant(self);
        }
        self.value.as_str()
    }
}

impl Clone for RunId {
    fn clone(&self) -> (copy: RunId)
        ensures
            copy == *self,
    {
        proof {
            use_type_invariant(self);
        }
        RunId { value: self.value.clone() }
    }
}

/// Where a run stands. Each phase is a directory of its own, and a run moves from
/// one to the next by renaming its directory.
#[derive(Clone, Copy, PartialEq, Eq, Structural, Debug)]
pub enum RunPhase {
    Incoming,
    Ready,
    Processing,
    Done,
    Failed,
}

impl RunPhase {
    /// The name of the phase's directory.
    pub open spec fn name(self) -> Seq<char> {
        match self {
            RunPhase::Incoming => "incoming"@,
            RunPhase::Ready => "ready"@,
            RunPhase::Processing => "processing"@,
            RunPhase::Done => "done"@,
            RunPhase::Failed => "failed"@,
        }
    }

    /// A phase that a run does not leave again.
    pub open spec fn is_terminal(self) -> bool {
        self is Done || self is Failed
    }

    pub fn as_str(self) -> (s: &'static str)
        ensures
            s@ == self.name(),
    {
        match self {
            RunPhase::Incoming => "incoming",
            RunPhase::Ready => "ready",
            RunPhase::Processing => "processing",
            RunPhase::Done => "done",
            RunPhase::Failed => "failed",
        }
    }
}

/// How a run ended.
#[derive(Clone, Copy, PartialEq, Eq, Structural, Debug)]
pub enum RunState {
    /// Every entry was imported.
    Done,
    /// Some entries were imported.
    Partial,
    /// No entry was imported.
    Failed,
}

impl RunState {
    pub open spec fn name(self) -> Seq<char> {
        match self {
            RunState::Done => "done"@,
            RunState::Partial => "partial"@,
            RunState::Failed => "failed"@,
        }
    }

    /// The phase in which a run of this state comes to rest.
    pub open spec fn resting_phase(self) -> RunPhase {
        match self {
            RunState::Done | RunState::Partial => RunPhase::Done,
            RunState::Failed => RunPhase::Failed,
        }
    }

    pub fn as_str(self) -> (s: &'static str)
        ensures
            s@ == self.name(),
    {
        match self {
            RunState::Done => "done",
            RunState::Partial => "partial",
            RunState::Failed => "failed",
        }
    }
}

/// What became of one entry.
#[derive(Clone, Copy, PartialEq, Eq, Structural, Debug)]
pub enum FileStatus {
    Imported,
    Failed,
}

/// What a manifest entry is.
#[derive(Clone, Copy, PartialEq, Eq, Structural, Debug)]
pub enum ManifestEntryKind {
    RegularFile,
    Directory,
    Symlink,
}

/// What the file system holds at a path, symbolic links not followed.
#[derive(Clone, Copy, PartialEq, Eq, Structural, Debug)]
pub enum FileKind {
    Directory,
    RegularFile,
    Symlink,
    /// A device, socket or pipe.
    Other,
}

/// One entry of a run, as the client announced it.
#[derive(Debug)]
pub struct ManifestEntry {
    pub local_path: String,
    pub staged_path: String,
    pub relative_path: String,
    pub kind: ManifestEntryKind,
    pub size: u64,
    pub mtime_ns: i64,
    pub sha256: Option<String>,
    pub link_target: Option<String>,
    pub transform: Option<String>,
}

/// The entries of a run.
#[derive(Debug)]
pub struct Manifest {
    pub purgery_version: String,
    pub run_id: RunId,
    pub nickname: Nickname,
    pub entries: Vec<ManifestEntry>,
}

/// What the client asks for.
#[derive(Debug)]
pub struct RunConfig {
    pub purgery_version: String,
    pub nickname: Nickname,
    pub destination: String,
    pub delete_after_import: bool,
}

/// The record of one entry in a status.
#[derive(Debug)]
pub struct EntryStatusEntry {
    pub kind: ManifestEntryKind,
    pub local_path: String,
    pub relative_path: String,
    pub status: FileStatus,
    pub final_paths: Vec<String>,
    pub transform: Option<String>,
    pub error: Option<String>,
}

/// The status of a run that has ended.
#[derive(Debug)]
pub struct RunStatus {
    pub purgery_version: String,
    pub run_id: RunId,
    pub nickname: Nickname,
    pub state: RunState,
    pub entries: Vec<EntryStatusEntry>,
    pub error: Option<String>,
}

impl RunStatus {
    /// Whether the status was written for this run.
    pub open spec fn belongs_to(&self, nickname: Seq<char>, run_id: Seq<char>) -> bool {
        self.nickname@ == nickname && self.run_id@ == run_id
    }

    /// Whether the status was written for this run.
    pub fn is_for(&self, nickname: &Nickname, run_id: &RunId) -> (ok: bool)
        ensures
            ok == self.belongs_to(nickname@, run_id@),
    {
        text::same_text(self.nickname.as_str(), nickname.as_str()) && text::same_text(
            self.run_id.as_str(),
            run_id.as_str(),
        )
    }
}

/// The claim of a client on an upload, renewed by heartbeats.
#[derive(Debug)]
pub struct LeaseFile {
    pub protocol_version: u32,
    pub purgery_version: String,
    pub nickname: String,
    pub run_id: String,
    pub created_at_unix_secs: u64,
    pub last_heartbeat_unix_secs: u64,
    pub expires_at_unix_secs: u64,
}

/// How far a run has come, for observers.
#[derive(Debug)]
pub struct ProcessingProgress {
    pub protocol_version: u32,
    pub purgery_version: String,
    pub nickname: String,
    pub run_id: String,
    pub phase: String,
    pub state: String,
    pub entry_index: usize,
    pub entry_total: usize,
    pub current_entry: String,
    pub current_transform: String,
    pub started_at_unix_secs: u64,
    pub updated_at_unix_secs: u64,
}

/// How long the server keeps what it holds, in seconds.
#[derive(Clone, Copy, PartialEq, Eq, Structural, Debug)]
pub struct GCConfig {
    pub incoming_lease_secs: u64,
    pub heartbeat_interval_secs: u64,
    pub ready_retention_secs: u64,
    pub processing_retention_secs: u64,
    pub done_retention_secs: u64,
    pub failed_retention_secs: u64,
    pub orphan_retention_secs: u64,
}

impl Default for GCConfig {
    /// An hour for an upload between heartbeats, a week for everything else.
    fn default() -> (config: GCConfig)
        ensures
            config == (GCConfig {
                incoming_lease_secs: 3600,
                heartbeat_interval_secs: 60,
                ready_retention_secs: 604800,
                processing_retention_secs: 604800,
                done_retention_secs: 604800,
                failed_retention_secs: 604800,
                orphan_retention_secs: 604800,
            }),
    {
        GCConfig {
            incoming_lease_secs: 3600,
            heartbeat_interval_secs: 60,
            ready_retention_secs: 604800,
            processing_retention_secs: 604800,
            done_retention_secs: 604800,
            failed_retention_secs: 604800,
            orphan_retention_secs: 604800,
        }
    }
}

/// How a transform runs.
#[derive(Clone, Copy, PartialEq, Eq, Structural, Debug)]
pub enum TransformKind {
    Subprocess,
}

/// A transform that the operator has defined.
#[derive(Debug)]
pub struct TransformDefinition {
    pub name: String,
    pub kind: TransformKind,
    pub program: String,
    pub args: Vec<String>,
    pub expected_outputs: Vec<String>,
}

/// The server's configuration.
#[derive(Debug)]
pub struct ServerConfig {
    pub work_dir: String,
    pub gc: GCConfig,
    /// By name: each occurs once, in the order of the names.
    pub transforms: Vec<TransformDefinition>,
}

/// Whether a list of transforms is in the order of their names, each of which occurs
/// once.
pub open spec fn in_order(transforms: Seq<TransformDefinition>) -> bool {
    forall|i: int, j: int|
        0 <= i < j < transforms.len() ==> text::precedes(
            (#[trigger] transforms[i]).name@,
            (#[trigger] transforms[j]).name@,
        )
}

impl ServerConfig {
    pub open spec fn well_formed(self) -> bool {
        in_order(self.transforms@)
    }

    /// Whether the transforms are in the order of their names, each of which occurs once.
    pub fn is_well_formed(&self) -> (ok: bool)
        ensures
            ok == self.well_formed(),
    {
        let transforms = &self.transforms;
        let mut k: usize = 1;
        while k < transforms.len()
            invariant
                1 <= k,
                *transforms == self.transforms,
                k <= transforms.len() || transforms.len() == 0,
                forall|i: int, j: int|
                    0 <= i < j < k && j < transforms@.len() ==> text::precedes(
                        (#[trigger] transforms@[i]).name@,
                        (#[trigger] transforms@[j]).name@,
                    ),
            decreases transforms.len() - k,
        {
            let before = transforms[k - 1].name.as_str();
            let name = transforms[k].name.as_str();
            if !text::comes_before(before, name) {
                assert(!text::precedes(transforms@[k - 1].name@, transforms@[k as int].name@));
                return false;
            }
            assert forall|i: int, j: int|
                0 <= i < j < k + 1 && j < transforms@.len() implies text::precedes(
                (#[trigger] transforms@[i]).name@,
                (#[trigger] transforms@[j]).name@,
            ) by {
                if j == k && i < k - 1 {
                    text::precedence_is_transitive(transforms@[i].name@, before@, name@);
                }
            }
            k = k + 1;
        }
        true
    }
}

/// A name has one definition at most.
pub proof fn names_are_defined_once(transforms: Seq<TransformDefinition>, i: int, j: int)
    requires
        in_order(transforms),
        0 <= i < transforms.len(),
        0 <= j < transforms.len(),
        transforms[i].name@ == transforms[j].name@,
    ensures
        i == j,
{
    text::nothing_precedes_itself(transforms[i].name@);
}

/// A document that was read: what it says of its producer, and what reading it as
/// its type gave.
#[derive(Debug)]
pub struct Document<T> {
    pub version: VersionProbe,
    pub parsed: Result<T, String>,
}

/// What looking for a document gave: the system's words for why there is none or why
/// it cannot be read, or the document.
#[derive(Debug)]
pub enum Lookup<T> {
    Missing(String),
    Unreadable(String),
    Found(Document<T>),
}

/// Whether a name of a list of transforms is the given one.
pub open spec fn defines(transforms: Seq<TransformDefinition>, name: Seq<char>) -> bool {
    exists|i: int| 0 <= i < transforms.len() && (#[trigger] transforms[i]).name@ == name
}

/// Finds a transform by name.
pub fn find_transform(transforms: &Vec<TransformDefinition>, name: &str) -> (found: Option<usize>)
    ensures
        found is Some <==> defines(transforms@, name@),
        found matches Some(i) ==> {
            &&& i < transforms.len()
            &&& transforms@[i as int].name@ == name@
            &&& forall|j: int| 0 <= j < i ==> (#[trigger] transforms@[j]).name@ != name@
        },
{
    let mut i: usize = 0;
    while i < transforms.len()
        invariant
            i <= transforms.len(),
            forall|j: int| 0 <= j < i ==> (#[trigger] transforms@[j]).name@ != name@,
        decreases transforms.len() - i,
    {
        if text::same_text(transforms[i].name.as_str(), name) {
            return Some(i);
        }
        i = i + 1;
    }
    None
}

/// A name is valid if and only if it is not empty, does not begin with a dot, and each of
/// its characters is a letter or a digit of ASCII, a hyphen, an underscore or a dot.
pub proof fn valid_names_are_plain_ascii(s: Seq<char>)
    ensures
        valid_name(s) <==> {
            &&& s.len() >= 1
            &&& s[0] as int != 46
            &&& forall|i: int|
                0 <= i < s.len() ==> {
                    ||| 97 <= #[trigger] s[i] as int <= 122
                    ||| 65 <= s[i] as int <= 90
                    ||| 48 <= s[i] as int <= 57
                    ||| s[i] as int == 45
                    ||| s[i] as int == 95
                    ||| s[i] as int == 46
                }
        },
{
    if valid_name(s) {
        assert forall|i: int| 0 <= i < s.len() implies {
            ||| 97 <= #[trigger] s[i] as int <= 122
            ||| 65 <= s[i] as int <= 90
            ||| 48 <= s[i] as int <= 57
            ||| s[i] as int == 45
            ||| s[i] as int == 95
            ||| s[i] as int == 46
        } by {
            assert(name_char(s[i]));
        }
    }
}

/// No valid name leads out of the directory in which it stands: it holds no slash, and is
/// neither `.` nor `..`.
pub proof fn valid_names_stay_in_their_directory(s: Seq<char>)
    requires
        valid_name(s),
    ensures
        !s.contains('/'),
        s != "."@,
        s != ".."@,
{
    reveal_strlit(".");
    reveal_strlit("..");
    if s.contains('/') {
        let i = choose|i: int| 0 <= i < s.len() && s[i] == '/';
        assert(name_char(s[i]));
    }
}

/// Different phases have different directories.
pub proof fn phases_are_told_apart(one: RunPhase, other: RunPhase)
    requires
        one.name() == other.name(),
    ensures
        one == other,
{
    reveal_strlit("incoming");
    reveal_strlit("ready");
    reveal_strlit("processing");
    reveal_strlit("done");
    reveal_strlit("failed");
    assert("incoming"@[0] == 'i');
    assert("ready"@[0] == 'r');
    assert("processing"@[0] == 'p');
    assert("done"@[0] == 'd');
    assert("failed"@[0] == 'f');
}

/// Different states have different names, and a run rests in failed if and only if it
/// failed.
pub proof fn states_are_told_apart(one: RunState, other: RunState)
    ensures
        one.name() == other.name() ==> one == other,
        one.resting_phase().is_terminal(),
        one.resting_phase() is Failed <==> one is Failed,
{
    reveal_strlit("done");
    reveal_strlit("partial");
    reveal_strlit("failed");
    assert("done"@[0] == 'd');
    assert("partial"@[0] == 'p');
    assert("failed"@[0] == 'f');
}

/// A name is defined if and only if a definition of that name is in the list.
pub proof fn defined_names_are_listed(
    before: Seq<TransformDefinition>,
    def: TransformDefinition,
    behind: Seq<TransformDefinition>,
    name: Seq<char>,
)
    ensures
        defines(before + seq![def] + behind, name) <==> defines(before, name) || def.name@ == name
            || defines(behind, name),
        !defines(Seq::empty(), name),
{
    let all = before + seq![def] + behind;
    if defines(before, name) {
        let i = choose|i: int| 0 <= i < before.len() && (#[trigger] before[i]).name@ == name;
        assert(all[i].name@ == name);
    }
    if def.name@ == name {
        assert(all[before.len() as int].name@ == name);
    }
    if defines(behind, name) {
        let i = choose|i: int| 0 <= i < behind.len() && (#[trigger] behind[i]).name@ == name;
        assert(all[before.len() + 1 + i].name@ == name);
    }
    if defines(all, name) {
        let i = choose|i: int| 0 <= i < all.len() && (#[trigger] all[i]).name@ == name;
        if i < before.len() {
            assert(before[i].name@ == name);
        } else if i > before.len() {
            assert(behind[i - before.len() - 1].name@ == name);
        }
    }
}

/// Transforms are in order if and only if of any two of them the one that comes first has
/// the name that comes first.
pub proof fn transforms_are_in_the_order_of_their_names(
    before: Seq<TransformDefinition>,
    def: TransformDefinition,
)
    ensures
        in_order(before.push(def)) <==> {
            &&& in_order(before)
            &&& forall|i: int|
                0 <= i < before.len() ==> text::precedes((#[trigger] before[i]).name@, def.name@)
        },
        in_order(Seq::empty()),
{
    let longer = before.push(def);
    if in_order(longer) {
        assert forall|i: int, j: int| 0 <= i < j < before.len() implies text::precedes(
            (#[trigger] before[i]).name@,
            (#[trigger] before[j]).name@,
        ) by {
            assert(text::precedes(longer[i].name@, longer[j].name@));
        }
        assert forall|i: int| 0 <= i < before.len() implies text::precedes(
            (#[trigger] before[i]).name@,
            def.name@,
        ) by {
            assert(text::precedes(longer[i].name@, longer[before.len() as int].name@));
        }
    }
}

/// A run that is done or failed has a state of the same name as the phase in which it
/// rests.
pub proof fn states_are_named_like_their_phase()
    ensures
        RunState::Done.name() == RunPhase::Done.name(),
        RunState::Failed.name() == RunPhase::Failed.name(),
        RunState::Done.resting_phase() is Done,
        RunState::Partial.resting_phase() is Done,
        RunState::Failed.resting_phase() is Failed,
{
}

/// A status belongs to a run if and only if it names both its client and its identifier.
pub proof fn statuses_belong_to_one_run(status: RunStatus, nickname: Seq<char>, run_id: Seq<char>)
    ensures
        status.belongs_to(nickname, run_id) <==> status.nickname@ == nickname && status.run_id@
            == run_id,
{
}

} // verus!
