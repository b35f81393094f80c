//! The catalog of installed runners and the order of their versions.
//!
//! The order is a heuristic over labels that people wrote. A label whose
//! second word reads as a number ranks by that number alone, so that any
//! positive number stands above `Experimental` and `Hotfix`, which rank as
//! zero and differ only in their class.

use crate::gamelib_helper::{runner_views, Runner, RunnerView, Runtime, RuntimeView};
use crate::keyvalues::{parse_document, values_under, KeyValue};
use crate::paths::{join, joined, parent, parent_of};
use crate::text::{
    contains, has_infix, head_before, lowercase, parse_u32, parsed_u32, same_text, split_words,
    substitute, substituted, take_before, texts, to_lowercase, words,
};
use std::cmp::Ordering;
use vstd::prelude::*;

verus! {

/// An application that a library holds, with what the catalog reads of it.
#[derive(Debug, PartialEq, Eq)]
pub struct InstalledApp {
    pub app_id: u32,
    /// The display name, where the application's manifest gives one.
    pub name: Option<String>,
    /// The directory that holds the application's files.
    pub install_dir: String,
    /// Whether a file named `proton` stands in `install_dir`.
    pub has_proton_binary: bool,
    /// The application that the tool manifest in `install_dir` requires, as
    /// `get_runtime_appid` gave it, or why it names none.
    pub required_tool: Result<u32, RuntimeError>,
}

/// Why a runner has no runtime.
#[derive(Clone, Copy, Debug, PartialEq, Eq)]
pub enum RuntimeError {
    /// No tool manifest stands beside the runner.
    ManifestMissing,
    /// The manifest is no key-value document, or its value is no object.
    ManifestMalformed,
    /// The manifest names no application that the runner requires.
    FieldMissing,
    /// What the manifest names is no application identifier.
    FieldMalformed,
    /// The application that the runner requires is not installed.
    AppNotFound,
    /// The application that the runner requires has no name.
    AppUnnamed,
}

/// Why no catalog could be made.
#[derive(Clone, Copy, Debug, PartialEq, Eq)]
pub enum CatalogError {
    /// An application of a library has no name.
    AppNameMissing,
    /// No application of any library is a runner.
    NoCompatibleRunnerFound,
}

impl RuntimeError {
    /// The error in one line.
    pub open spec fn message_of(self) -> Seq<char> {
        match self {
            RuntimeError::ManifestMissing => "the runner has no tool manifest"@,
            RuntimeError::ManifestMalformed => "the tool manifest is malformed"@,
            RuntimeError::FieldMissing => "the tool manifest requires no application"@,
            RuntimeError::FieldMalformed =>
                "the tool manifest requires what is no application identifier"@,
            RuntimeError::AppNotFound => "the required application is not installed"@,
            RuntimeError::AppUnnamed => "the required application has no name"@,
        }
    }

    /// The error in one line.
    pub fn message(&self) -> (r: String)
        ensures
            r@ == self.message_of(),
    {
        match self {
            RuntimeError::ManifestMissing => "the runner has no tool manifest".to_owned(),
            RuntimeError::ManifestMalformed => "the tool manifest is malformed".to_owned(),
            RuntimeError::FieldMissing => "the tool manifest requires no application".to_owned(),
            RuntimeError::FieldMalformed =>
                "the tool manifest requires what is no application identifier".to_owned(),
            RuntimeError::AppNotFound => "the required application is not installed".to_owned(),
            RuntimeError::AppUnnamed => "the required application has no name".to_owned(),
        }
    }
}

impl CatalogError {
    /// The error in one line.
    pub open spec fn message_of(self) -> Seq<char> {
        match self {
            CatalogError::AppNameMissing => "an installed application has no name"@,
            CatalogError::NoCompatibleRunnerFound => "no compatible runner found"@,
        }
    }

    /// The error in one line.
    pub fn message(&self) -> (r: String)
        ensures
            r@ == self.message_of(),
    {
        match self {
            CatalogError::AppNameMissing => "an installed application has no name".to_owned(),
            CatalogError::NoCompatibleRunnerFound => "no compatible runner found".to_owned(),
        }
    }
}

/// The key under which a tool manifest names the application it requires.
pub const REQUIRED_TOOL_KEY: &'static str = "require_tool_appid";

/// The application that the manifest document `doc` requires.
pub open spec fn required_app_in(doc: KeyValue) -> Result<u32, RuntimeError> {
    match doc {
        KeyValue::Text(_) => Err(RuntimeError::ManifestMalformed),
        KeyValue::Object(entries) => match values_under(entries@, REQUIRED_TOOL_KEY@) {
            None => Err(RuntimeError::FieldMissing),
            Some(values) => if values.len() == 0 {
                Err(RuntimeError::FieldMissing)
            } else {
                match values[0] {
                    KeyValue::Object(_) => Err(RuntimeError::FieldMalformed),
                    KeyValue::Text(t) => match parsed_u32(t@) {
                        Some(id) => Ok(id),
                        None => Err(RuntimeError::FieldMalformed),
                    },
                }
            },
        },
    }
}

/// Whether one of `apps` has the identifier `id`.
pub open spec fn has_app(apps: Seq<InstalledApp>, id: u32) -> bool {
    exists|i: int| 0 <= i < apps.len() && (#[trigger] apps[i]).app_id == id
}

/// The application at `i` is the first of `apps` with the identifier `id`.
pub open spec fn is_first_app(apps: Seq<InstalledApp>, id: u32, i: int) -> bool {
    &&& 0 <= i < apps.len()
    &&& apps[i].app_id == id
    &&& forall|j: int| 0 <= j < i ==> (#[trigger] apps[j]).app_id != id
}

/// The position of the first of `apps` with the identifier `id`.
pub open spec fn first_app(apps: Seq<InstalledApp>, id: u32) -> int {
    choose|i: int| is_first_app(apps, id, i)
}

/// The runtime that the application `app` is.
pub open spec fn runtime_from(app: InstalledApp) -> Result<RuntimeView, RuntimeError> {
    match app.name {
        None => Err(RuntimeError::AppUnnamed),
        Some(name) => Ok(
            RuntimeView { name: name@, pretty_name: name@, path: app.install_dir@ },
        ),
    }
}

/// The runtime of a runner whose tool manifest requires `required`, among
/// the installed `apps`: the first of them with that identifier.
pub open spec fn runtime_of(required: Result<u32, RuntimeError>, apps: Seq<InstalledApp>) -> Result<
    RuntimeView,
    RuntimeError,
> {
    match required {
        Err(e) => Err(e),
        Ok(id) => if has_app(apps, id) {
            runtime_from(apps[first_app(apps, id)])
        } else {
            Err(RuntimeError::AppNotFound)
        },
    }
}

/// The machine name of the runner whose label is `label`: the label in lower
/// case up to its first `.`, with `_` for each space.
pub open spec fn runner_id_of(label: Seq<char>) -> Seq<char> {
    substituted(head_before(lowercase(label), '.'), ' ', '_')
}

/// Whether `app` is a runner: its name holds `Proton` and its directory the
/// program.
pub open spec fn is_runner_app(app: InstalledApp) -> bool {
    &&& app.name matches Some(name) && has_infix(name@, "Proton"@)
    &&& app.has_proton_binary
}

/// The runner that `app` is, with its runtime looked up among `apps`.
pub open spec fn runner_from(app: InstalledApp, apps: Seq<InstalledApp>) -> RunnerView {
    RunnerView {
        name: runner_id_of(app.name->0@),
        pretty_name: app.name->0@,
        path: joined(app.install_dir@, "proton"@),
        runtime: match runtime_of(app.required_tool, apps) {
            Ok(rt) => Some(rt),
            Err(_) => None,
        },
    }
}

/// The runners among the first `upto` of `apps`, in their order.
pub open spec fn catalog_of(apps: Seq<InstalledApp>, upto: int) -> Seq<RunnerView>
    decreases upto,
{
    if upto <= 0 {
        seq![]
    } else if is_runner_app(apps[upto - 1]) {
        catalog_of(apps, upto - 1).push(runner_from(apps[upto - 1], apps))
    } else {
        catalog_of(apps, upto - 1)
    }
}

/// Whether each of `apps` has a name.
pub open spec fn all_named(apps: Seq<InstalledApp>) -> bool {
    forall|i: int| 0 <= i < apps.len() ==> (#[trigger] apps[i]).name is Some
}

/// The rank of a label: a magnitude, then a class that orders labels of one
/// magnitude.
pub type Rank = (i64, i64);

/// The part of a label that is read as a number: the second word up to its
/// first `-`, where the first word is `Proton`.
pub open spec fn version_token_of(label: Seq<char>) -> Option<Seq<char>> {
    let parts = words(label);
    if parts.len() >= 2 && parts[0] == "Proton"@ {
        Some(head_before(parts[1], '-'))
    } else {
        None
    }
}

/// The class of a token that is no number, given in lower case.
pub open spec fn class_of(lowered: Seq<char>) -> i64 {
    if has_infix(lowered, "experimental"@) {
        2
    } else if has_infix(lowered, "hotfix"@) {
        1
    } else {
        0
    }
}

/// The rank of a token, where `magnitude` is a thousand times the number that
/// the token reads as, if it reads as one.
pub open spec fn token_rank(token: Seq<char>, magnitude: Option<i64>) -> Rank {
    match magnitude {
        Some(m) => (m, 0),
        None => (0, class_of(lowercase(token))),
    }
}

/// The rank of a label. `magnitude` counts only where the label has a token.
pub open spec fn rank(label: Seq<char>, magnitude: Option<i64>) -> Rank {
    match version_token_of(label) {
        Some(token) => token_rank(token, magnitude),
        None => (0, 0),
    }
}

/// `a` ranks below `b` or with it.
pub open spec fn rank_le(a: Rank, b: Rank) -> bool {
    a.0 < b.0 || (a.0 == b.0 && a.1 <= b.1)
}

/// The magnitude given for the runner at `i`: none where none was given.
pub open spec fn magnitude_at(magnitudes: Seq<Option<i64>>, i: int) -> Option<i64> {
    if 0 <= i < magnitudes.len() {
        magnitudes[i]
    } else {
        None
    }
}

/// The rank of the runner at `i`.
pub open spec fn rank_at(versions: Seq<Runner>, magnitudes: Seq<Option<i64>>, i: int) -> Rank {
    rank(versions[i].pretty_name@, magnitude_at(magnitudes, i))
}

/// The runner at `i` ranks highest, and is the last of those that do.
pub open spec fn is_highest(versions: Seq<Runner>, magnitudes: Seq<Option<i64>>, i: int) -> bool {
    &&& 0 <= i < versions.len()
    &&& forall|j: int|
        0 <= j < versions.len() ==> rank_le(
            #[trigger] rank_at(versions, magnitudes, j),
            rank_at(versions, magnitudes, i),
        )
    &&& forall|j: int|
        i < j < versions.len() ==> !rank_le(
            rank_at(versions, magnitudes, i),
            #[trigger] rank_at(versions, magnitudes, j),
        )
}

/// Where the tool manifest of `runner` stands: beside its program.
pub fn manifest_path(runner: &Runner) -> (r: Option<String>)
    ensures
        r is Some <==> parent_of(runner.path@) is Some,
        r matches Some(p) ==> p@ == joined(parent_of(runner.path@)->0, "toolmanifest.vdf"@),
{
    match parent(runner.path.as_str()) {
        Some(dir) => Some(join(dir.as_str(), "toolmanifest.vdf")),
        None => None,
    }
}

/// The application that the manifest document `doc` requires.
pub fn required_app(doc: &KeyValue) -> (r: Result<u32, RuntimeError>)
    ensures
        r == required_app_in(*doc),
{
    match doc.values(REQUIRED_TOOL_KEY) {
        None => match doc {
            KeyValue::Text(_) => Err(RuntimeError::ManifestMalformed),
            KeyValue::Object(_) => Err(RuntimeError::FieldMissing),
        },
        Some(values) => if values.len() == 0 {
            Err(RuntimeError::FieldMissing)
        } else {
            match &values[0] {
                KeyValue::Object(_) => Err(RuntimeError::FieldMalformed),
                KeyValue::Text(t) => match parse_u32(t.as_str()) {
                    Some(id) => Ok(id),
                    None => Err(RuntimeError::FieldMalformed),
                },
            }
        },
    }
}

/// The application that a runner requires as its runtime, where `manifest` is
/// the text of the runner's tool manifest, if it could be read. A manifest
/// that the parser refuses is malformed; of one that it reads, the result is
/// what `required_app` gives for the document that was read.
pub fn get_runtime_appid(manifest: Option<&str>) -> (r: Result<u32, RuntimeError>)
    ensures
        manifest is None ==> r == Err::<u32, RuntimeError>(RuntimeError::ManifestMissing),
        manifest is Some ==> r == Err::<u32, RuntimeError>(RuntimeError::ManifestMalformed) || (
        exists|doc: KeyValue| r == required_app_in(doc)),
{
    match manifest {
        None => Err(RuntimeError::ManifestMissing),
        Some(text) => match parse_document(text) {
            Err(_) => Err(RuntimeError::ManifestMalformed),
            Ok(doc) => required_app(&doc),
        },
    }
}

/// One application only is the first with an identifier.
pub proof fn lemma_first_app(apps: Seq<InstalledApp>, id: u32, i: int)
    requires
        is_first_app(apps, id, i),
    ensures
        has_app(apps, id),
        first_app(apps, id) == i,
{
    let j = first_app(apps, id);
    assert(is_first_app(apps, id, j));
    if j < i {
        assert(apps[j].app_id != id);
    }
    if i < j {
        assert(apps[i].app_id != id);
    }
}

/// The first of `apps` whose identifier is `id`.
pub fn find_app(apps: &[InstalledApp], id: u32) -> (r: Option<usize>)
    ensures
        r is Some <==> has_app(apps@, id),
        r matches Some(i) ==> is_first_app(apps@, id, i as int) && i == first_app(apps@, id),
{
    let mut i: usize = 0;
    while i < apps.len()
        invariant
            i <= apps.len(),
            forall|j: int| 0 <= j < i ==> (#[trigger] apps@[j]).app_id != id,
        decreases apps.len() - i,
    {
        if apps[i].app_id == id {
            proof {
                lemma_first_app(apps@, id, i as int);
            }
            return Some(i);
        }
        i += 1;
    }
    None
}

/// The runtime of a runner whose tool manifest requires `required`, looked
/// up among the installed `apps`.
pub fn get_runtime(required: Result<u32, RuntimeError>, apps: &[InstalledApp]) -> (r: Result<
    Runtime,
    RuntimeError,
>)
    ensures
        match runtime_of(required, apps@) {
            Ok(view) => (r matches Ok(rt) && rt@ == view),
            Err(e) => r == Err::<Runtime, RuntimeError>(e),
        },
{
    match required {
        Err(e) => Err(e),
        Ok(id) => match find_app(apps, id) {
            None => Err(RuntimeError::AppNotFound),
            Some(at) => match &apps[at].name {
                None => Err(RuntimeError::AppUnnamed),
                Some(name) => Ok(
                    Runtime {
                        name: name.clone(),
                        pretty_name: name.clone(),
                        path: apps[at].install_dir.clone(),
                    },
                ),
            },
        },
    }
}

/// The machine name of the runner whose label is `label`.
pub fn runner_id(label: &str) -> (r: String)
    ensures
        r@ == runner_id_of(label@),
{
    let lowered = to_lowercase(label);
    let head = take_before(lowered.as_str(), '.');
    proof {
        reveal_strlit("_");
    }
    substitute(head.as_str(), ' ', "_")
}

/// The runners among the installed `apps`, in their order, each with its
/// runtime where one can be resolved.
pub fn find_all_versions(apps: &[InstalledApp]) -> (r: Result<Vec<Runner>, CatalogError>)
    ensures
        !all_named(apps@) ==> r == Err::<Vec<Runner>, CatalogError>(CatalogError::AppNameMissing),
        all_named(apps@) && catalog_of(apps@, apps@.len() as int).len() == 0 ==> r == Err::<
            Vec<Runner>,
            CatalogError,
        >(CatalogError::NoCompatibleRunnerFound),
        all_named(apps@) && catalog_of(apps@, apps@.len() as int).len() > 0 ==> (r matches Ok(v)
            && runner_views(v@) == catalog_of(apps@, apps@.len() as int)),
{
    let mut found: Vec<Runner> = Vec::new();
    let mut i: usize = 0;
    while i < apps.len()
        invariant
            i <= apps.len(),
            forall|j: int| 0 <= j < i ==> (#[trigger] apps@[j]).name is Some,
            runner_views(found@) == catalog_of(apps@, i as int),
        decreases apps.len() - i,
    {
        let app = &apps[i];
        match &app.name {
            None => {
                return Err(CatalogError::AppNameMissing);
            },
            Some(name) => {
                if contains(name.as_str(), "Proton") && app.has_proton_binary {
                    let runtime = match get_runtime(app.required_tool, apps) {
                        Ok(rt) => Some(rt),
                        Err(_) => None,
                    };
                    let runner = Runner {
                        name: runner_id(name.as_str()),
                        pretty_name: name.clone(),
                        path: join(app.install_dir.as_str(), "proton"),
                        runtime,
                    };
                    assert(runner@ == runner_from(apps@[i as int], apps@));
                    let ghost before = runner_views(found@);
                    found.push(runner);
                    assert(runner_views(found@) =~= before.push(runner@));
                }
            },
        }
        i += 1;
    }
    if found.len() == 0 {
        Err(CatalogError::NoCompatibleRunnerFound)
    } else {
        Ok(found)
    }
}

/// The part of `label` that is to be read as a number.
pub fn version_token(label: &str) -> (r: Option<String>)
    ensures
        r is Some <==> version_token_of(label@) is Some,
        r matches Some(t) ==> Some(t@) == version_token_of(label@),
{
    let parts = split_words(label);
    assert(texts(parts@).len() == parts@.len());
    if parts.len() >= 2 && same_text(parts[0].as_str(), "Proton") {
        assert(texts(parts@)[0] == parts@[0]@);
        assert(texts(parts@)[1] == parts@[1]@);
        Some(take_before(parts[1].as_str(), '-'))
    } else {
        if parts.len() >= 2 {
            assert(texts(parts@)[0] == parts@[0]@);
        }
        None
    }
}

/// The class of a token that is no number. `lowered` is the token in lower
/// case.
pub fn classify(lowered: &str) -> (r: i64)
    ensures
        r == class_of(lowered@),
{
    if contains(lowered, "experimental") {
        2
    } else if contains(lowered, "hotfix") {
        1
    } else {
        0
    }
}

/// The rank of a label whose token reads as `magnitude` thousandths, or as no
/// number.
pub fn version_rank(label: &str, magnitude: Option<i64>) -> (r: Rank)
    ensures
        r == rank(label@, magnitude),
{
    match version_token(label) {
        Some(token) => match magnitude {
            Some(m) => (m, 0),
            None => {
                let lowered = to_lowercase(token.as_str());
                (0, classify(lowered.as_str()))
            },
        },
        None => (0, 0),
    }
}

/// Whether `a` ranks below `b` or with it.
pub fn rank_at_most(a: Rank, b: Rank) -> (r: bool)
    ensures
        r == rank_le(a, b),
{
    a.0 < b.0 || (a.0 == b.0 && a.1 <= b.1)
}

/// How `a` stands to `b` in the order of ranks.
pub fn compare(a: Rank, b: Rank) -> (r: Ordering)
    ensures
        r == Ordering::Less <==> rank_le(a, b) && a != b,
        r == Ordering::Equal <==> a == b,
        r == Ordering::Greater <==> rank_le(b, a) && a != b,
{
    if a.0 < b.0 {
        Ordering::Less
    } else if a.0 > b.0 {
        Ordering::Greater
    } else if a.1 < b.1 {
        Ordering::Less
    } else if a.1 > b.1 {
        Ordering::Greater
    } else {
        Ordering::Equal
    }
}

/// The position of the runner that ranks highest; of several that do, the
/// last. `magnitudes[i]` is a thousand times the number that the token of
/// `versions[i]` reads as; a runner without an entry has none.
pub fn highest_index(versions: &[Runner], magnitudes: &[Option<i64>]) -> (r: Option<usize>)
    ensures
        r is None <==> versions@.len() == 0,
        r matches Some(i) ==> is_highest(versions@, magnitudes@, i as int),
{
    if versions.len() == 0 {
        return None;
    }
    let mut best: usize = 0;
    let mut best_rank = version_rank(
        versions[0].pretty_name.as_str(),
        if 0 < magnitudes.len() {
            magnitudes[0]
        } else {
            None
        },
    );
    let mut i: usize = 1;
    while i < versions.len()
        invariant
            1 <= i <= versions.len(),
            best < i,
            best_rank == rank_at(versions@, magnitudes@, best as int),
            forall|j: int|
                0 <= j < i ==> rank_le(
                    #[trigger] rank_at(versions@, magnitudes@, j),
                    rank_at(versions@, magnitudes@, best as int),
                ),
            forall|j: int|
                best < j < i ==> !rank_le(
                    rank_at(versions@, magnitudes@, best as int),
                    #[trigger] rank_at(versions@, magnitudes@, j),
                ),
        decreases versions.len() - i,
    {
        let m = if i < magnitudes.len() {
            magnitudes[i]
        } else {
            None
        };
        let here = version_rank(versions[i].pretty_name.as_str(), m);
        assert(here == rank_at(versions@, magnitudes@, i as int));
        if rank_at_most(best_rank, here) {
            best = i;
            best_rank = here;
        }
        i += 1;
    }
    Some(best)
}

/// The runner that ranks highest; of several that do, the last.
pub fn find_highest_version<'a>(versions: &'a [Runner], magnitudes: &[Option<i64>]) -> (r: Option<
    &'a Runner,
>)
    ensures
        r is None <==> versions@.len() == 0,
        r matches Some(x) ==> exists|i: int|
            is_highest(versions@, magnitudes@, i) && *x == versions@[i],
{
    match highest_index(versions, magnitudes) {
        Some(i) => Some(&versions[i]),
        None => None,
    }
}

/// The order of ranks is total: of two ranks one is at most the other; it is
/// reflexive and transitive, and two ranks that are each at most the other
/// are the same rank.
pub proof fn lemma_rank_order_is_total(a: Rank, b: Rank, c: Rank)
    ensures
        rank_le(a, b) || rank_le(b, a),
        rank_le(a, a),
        rank_le(a, b) && rank_le(b, c) ==> rank_le(a, c),
        rank_le(a, b) && rank_le(b, a) ==> a == b,
{
}

/// Of two labels whose tokens read as numbers, the one with the greater
/// number ranks strictly higher, whatever else the labels hold.
pub proof fn lemma_greater_number_ranks_higher(
    a: Seq<char>,
    number_a: i64,
    b: Seq<char>,
    number_b: i64,
)
    requires
        version_token_of(a) is Some,
        version_token_of(b) is Some,
        number_a > number_b,
    ensures
        rank_le(rank(b, Some(number_b)), rank(a, Some(number_a))),
        !rank_le(rank(a, Some(number_a)), rank(b, Some(number_b))),
{
}

/// A label whose token reads as a number above zero ranks strictly higher
/// than any label whose token reads as no number, `Experimental` among them.
pub proof fn lemma_positive_number_ranks_above_names(a: Seq<char>, number: i64, b: Seq<char>)
    requires
        version_token_of(a) is Some,
        number > 0,
    ensures
        rank_le(rank(b, None), rank(a, Some(number))),
        !rank_le(rank(a, Some(number)), rank(b, None)),
{
}

/// Labels that read as no number have the magnitude zero and rank by their
/// class alone: `Experimental` above `Hotfix` above the rest. A label
/// without a token is of the lowest class, whatever magnitude is given
/// for it.
pub proof fn lemma_named_labels_rank_by_class(a: Seq<char>, b: Seq<char>, given: Option<i64>)
    ensures
        rank(a, None).0 == 0,
        0 <= rank(a, None).1 <= 2,
        rank_le(rank(a, None), rank(b, None)) <==> rank(a, None).1 <= rank(b, None).1,
        version_token_of(a) is None ==> rank(a, given) == (0i64, 0i64),
{
}

/// At most one runner is the highest: the contract of `highest_index` fixes
/// its result.
pub proof fn lemma_highest_is_unique(
    versions: Seq<Runner>,
    magnitudes: Seq<Option<i64>>,
    i: int,
    j: int,
)
    requires
        is_highest(versions, magnitudes, i),
        is_highest(versions, magnitudes, j),
    ensures
        i == j,
{
    if i < j {
        assert(rank_le(rank_at(versions, magnitudes, i), rank_at(versions, magnitudes, j)));
    }
    if j < i {
        assert(rank_le(rank_at(versions, magnitudes, j), rank_at(versions, magnitudes, i)));
    }
}

} // verus!
