//! The registry of logical models: which exist, which backend serves each, and
//! which are loaded.

use std::time::SystemTime;
use vstd::prelude::*;

use crate::backend::InferenceBackend;
use crate::text::{chars_of, copy_text, same_text};

verus! {

/// What a model can be used for.
#[derive(Debug, Clone, Copy, PartialEq, Eq, Structural)]
pub enum ModelCapability {
    Chat,
    Vision,
    Embedding,
    Completion,
}

/// How fast a model answers.
#[derive(Debug, Clone, Copy, PartialEq, Eq, Structural)]
pub enum LatencyProfile {
    Extreme,
    Fast,
    Slow,
}

/// A point in time: the whole seconds since 1970-01-01T00:00:00Z, and the
/// nanoseconds since the last whole second.
#[derive(Debug, Clone, Copy, PartialEq, Eq, Structural)]
pub struct Timestamp {
    pub seconds: i64,
    pub nanoseconds: u32,
}

/// Why a registry operation was refused.
#[derive(Debug, Clone, Copy, PartialEq, Eq, Structural)]
pub enum RegistryError {
    /// A model with this id is registered already.
    Conflict,
    /// No model with this id is registered.
    NotFound,
    /// The model is loaded already.
    AlreadyLoaded,
    /// The model is registered and not loaded.
    NotLoaded,
}

/// A logical model: a name for a model that some backend serves.
#[derive(Debug, PartialEq, Eq)]
pub struct ModelRegistryEntry {
    pub id: String,
    pub name: String,
    pub inference: InferenceBackend,
    pub context: u32,
    pub quant: Option<String>,
    pub capabilities: Vec<ModelCapability>,
    pub latency: Option<LatencyProfile>,
    pub size_bytes: u64,
    pub loaded: bool,
    pub loaded_at: Option<Timestamp>,
}

/// The mathematical value of a [`ModelRegistryEntry`].
pub struct ModelEntryView {
    pub id: Seq<char>,
    pub name: Seq<char>,
    pub inference: InferenceBackend,
    pub context: u32,
    pub quant: Option<Seq<char>>,
    pub capabilities: Seq<ModelCapability>,
    pub latency: Option<LatencyProfile>,
    pub size_bytes: u64,
    pub loaded: bool,
    pub loaded_at: Option<Timestamp>,
}

impl View for ModelRegistryEntry {
    type V = ModelEntryView;

    open spec fn view(&self) -> ModelEntryView {
        ModelEntryView {
            id: self.id@,
            name: self.name@,
            inference: self.inference,
            context: self.context,
            quant: chars_of(self.quant),
            capabilities: self.capabilities@,
            latency: self.latency,
            size_bytes: self.size_bytes,
            loaded: self.loaded,
            loaded_at: self.loaded_at,
        }
    }
}

impl ModelEntryView {
    /// The time of loading is recorded exactly while the model is loaded.
    pub open spec fn consistent(self) -> bool {
        self.loaded == (self.loaded_at is Some)
    }

    /// This entry, loaded at `now`.
    pub open spec fn loaded_at_time(self, now: Timestamp) -> ModelEntryView {
        ModelEntryView { loaded: true, loaded_at: Some(now), ..self }
    }

    /// This entry, not loaded.
    pub open spec fn unloaded(self) -> ModelEntryView {
        ModelEntryView { loaded: false, loaded_at: None, ..self }
    }
}

/// A copy of a list of capabilities.
pub fn copy_capabilities(list: &Vec<ModelCapability>) -> (copy: Vec<ModelCapability>)
    ensures
        copy@ == list@,
{
    let mut copy: Vec<ModelCapability> = Vec::new();
    let mut i: usize = 0;
    while i < list.len()
        invariant
            i <= list.len(),
            copy@ == list@.subrange(0, i as int),
        decreases list.len() - i,
    {
        copy.push(list[i]);
        assert(list@.subrange(0, i + 1) == list@.subrange(0, i as int).push(list@[i as int]));
        i += 1;
    }
    assert(list@.subrange(0, list@.len() as int) == list@);
    copy
}

impl Clone for ModelRegistryEntry {
    fn clone(&self) -> (copy: Self)
        ensures
            copy@ == self@,
    {
        ModelRegistryEntry {
            id: self.id.clone(),
            name: self.name.clone(),
            inference: self.inference,
            context: self.context,
            quant: copy_text(&self.quant),
            capabilities: copy_capabilities(&self.capabilities),
            latency: self.latency,
            size_bytes: self.size_bytes,
            loaded: self.loaded,
            loaded_at: self.loaded_at,
        }
    }
}

/// `std::time::SystemTime`, a reading of the system clock. Nothing of it is
/// visible here: the registry only stores it.
#[verifier::external_type_specification]
#[verifier::external_body]
pub struct ExSystemTime(SystemTime);

/// A registered model together with the time of its last use.
#[derive(Debug, PartialEq, Eq)]
pub struct LoadedModel {
    pub registry_entry: ModelRegistryEntry,
    pub last_accessed: SystemTime,
}

impl Clone for LoadedModel {
    fn clone(&self) -> (copy: Self)
        ensures
            copy.registry_entry@ == self.registry_entry@,
            copy.last_accessed == self.last_accessed,
    {
        LoadedModel {
            registry_entry: self.registry_entry.clone(),
            last_accessed: self.last_accessed,
        }
    }
}

/// `SystemTime::now` of the standard library. What it returns depends on the
/// clock, so nothing is claimed of it.
#[verifier::external_body]
pub(crate) fn system_now() -> SystemTime {
    SystemTime::now()
}

/// The conversion of `chrono` from a `SystemTime` to a `DateTime<Utc>`,
/// applied to what `SystemTime::now` gives and read through
/// `DateTime::timestamp` and `DateTime::timestamp_subsec_nanos`. What it
/// returns depends on the clock, so nothing is claimed of it.
#[verifier::external_body]
pub(crate) fn utc_now() -> Timestamp {
    let now = chrono::DateTime::<chrono::Utc>::from(SystemTime::now());
    Timestamp { seconds: now.timestamp(), nanoseconds: now.timestamp_subsec_nanos() }
}

/// What a client gives to register a model: an entry without its load state.
#[derive(Debug, PartialEq, Eq)]
pub struct RegisterModelRequest {
    pub id: String,
    pub name: String,
    pub inference: InferenceBackend,
    pub context: u32,
    pub quant: Option<String>,
    pub capabilities: Vec<ModelCapability>,
    pub latency: Option<LatencyProfile>,
    pub size_bytes: u64,
}

impl View for RegisterModelRequest {
    type V = ModelEntryView;

    /// The entry that the request describes: it is not loaded.
    open spec fn view(&self) -> ModelEntryView {
        ModelEntryView {
            id: self.id@,
            name: self.name@,
            inference: self.inference,
            context: self.context,
            quant: chars_of(self.quant),
            capabilities: self.capabilities@,
            latency: self.latency,
            size_bytes: self.size_bytes,
            loaded: false,
            loaded_at: None,
        }
    }
}

impl RegisterModelRequest {
    /// The entry that the request describes: it is not loaded.
    pub fn to_entry(&self) -> (entry: ModelRegistryEntry)
        ensures
            entry@ == self@,
    {
        ModelRegistryEntry {
            id: self.id.clone(),
            name: self.name.clone(),
            inference: self.inference,
            context: self.context,
            quant: copy_text(&self.quant),
            capabilities: copy_capabilities(&self.capabilities),
            latency: self.latency,
            size_bytes: self.size_bytes,
            loaded: false,
            loaded_at: None,
        }
    }
}

/// The position of the first entry with the given id.
pub open spec fn find_model(entries: Seq<ModelEntryView>, id: Seq<char>) -> Option<int>
    decreases entries.len(),
{
    if entries.len() == 0 {
        None
    } else {
        match find_model(entries.drop_last(), id) {
            Some(i) => Some(i),
            None => if entries.last().id == id {
                Some(entries.len() - 1)
            } else {
                None
            },
        }
    }
}

/// What `find_model` finds: an entry with the id that has none with the id
/// before it, or nothing where no entry has the id.
pub proof fn lemma_find_model(entries: Seq<ModelEntryView>, id: Seq<char>)
    ensures
        match find_model(entries, id) {
            Some(i) => 0 <= i < entries.len() && entries[i].id == id && forall|k: int|
                0 <= k < i ==> (#[trigger] entries[k]).id != id,
            None => forall|k: int| 0 <= k < entries.len() ==> (#[trigger] entries[k]).id != id,
        },
    decreases entries.len(),
{
    if entries.len() > 0 {
        let front = entries.drop_last();
        lemma_find_model(front, id);
        match find_model(front, id) {
            Some(i) => {
                assert forall|k: int| 0 <= k < i implies (#[trigger] entries[k]).id != id by {
                    assert(front[k] == entries[k]);
                }
            },
            None => {
                assert forall|k: int| 0 <= k < entries.len() - 1 implies (#[trigger] entries[k]).id
                    != id by {
                    assert(front[k] == entries[k]);
                }
            },
        }
    }
}

/// An entry with the id and none with it before is what `find_model` finds.
pub proof fn lemma_find_model_is(entries: Seq<ModelEntryView>, id: Seq<char>, i: int)
    requires
        0 <= i < entries.len(),
        entries[i].id == id,
        forall|k: int| 0 <= k < i ==> (#[trigger] entries[k]).id != id,
    ensures
        find_model(entries, id) == Some(i),
{
    lemma_find_model(entries, id);
}

/// The registry is in order: no id stands twice, and each entry records the
/// time of loading exactly while it is loaded.
pub open spec fn well_formed(entries: Seq<ModelEntryView>) -> bool {
    &&& forall|i: int, j: int|
        0 <= i < j < entries.len() ==> (#[trigger] entries[i]).id != (#[trigger] entries[j]).id
    &&& forall|i: int| 0 <= i < entries.len() ==> (#[trigger] entries[i]).consistent()
}

/// The registry after a registration, and what the registration returns.
///
/// An id that is registered already is a conflict and leaves the registry as it
/// is. Any other entry is added at the end, not loaded.
pub open spec fn register_outcome(entries: Seq<ModelEntryView>, entry: ModelEntryView) -> (
    Seq<ModelEntryView>,
    Result<ModelEntryView, RegistryError>,
) {
    if find_model(entries, entry.id) is Some {
        (entries, Err(RegistryError::Conflict))
    } else {
        (entries.push(entry.unloaded()), Ok(entry.unloaded()))
    }
}

/// The registry after loading the model `id` at the time `now`, and what the
/// loading returns.
pub open spec fn load_outcome(entries: Seq<ModelEntryView>, id: Seq<char>, now: Timestamp) -> (
    Seq<ModelEntryView>,
    Result<(), RegistryError>,
) {
    match find_model(entries, id) {
        None => (entries, Err(RegistryError::NotFound)),
        Some(i) => if entries[i].loaded {
            (entries, Err(RegistryError::AlreadyLoaded))
        } else {
            (entries.update(i, entries[i].loaded_at_time(now)), Ok(()))
        },
    }
}

/// The registry after unloading the model `id`, and what the unloading
/// returns. Unloading a model that is not loaded succeeds.
pub open spec fn unload_outcome(entries: Seq<ModelEntryView>, id: Seq<char>) -> (
    Seq<ModelEntryView>,
    Result<(), RegistryError>,
) {
    match find_model(entries, id) {
        None => (entries, Err(RegistryError::NotFound)),
        Some(i) => (entries.update(i, entries[i].unloaded()), Ok(())),
    }
}

/// The loaded model `id`, or why there is none.
pub open spec fn resolve_outcome(entries: Seq<ModelEntryView>, id: Seq<char>) -> Result<
    ModelEntryView,
    RegistryError,
> {
    match find_model(entries, id) {
        None => Err(RegistryError::NotFound),
        Some(i) => if entries[i].loaded {
            Ok(entries[i])
        } else {
            Err(RegistryError::NotLoaded)
        },
    }
}

/// The view of an entry or an error.
pub open spec fn entry_result_view(result: Result<ModelRegistryEntry, RegistryError>) -> Result<
    ModelEntryView,
    RegistryError,
> {
    match result {
        Ok(entry) => Ok(entry@),
        Err(error) => Err(error),
    }
}

/// The values of `entries`, in order.
pub open spec fn entries_view(entries: Seq<ModelRegistryEntry>) -> Seq<ModelEntryView> {
    entries.map_values(|entry: ModelRegistryEntry| entry@)
}

/// The registry: the known models in the order of their registration.
#[derive(Debug, PartialEq, Eq)]
pub struct AppState {
    pub models: Vec<LoadedModel>,
}

impl View for AppState {
    type V = Seq<ModelEntryView>;

    open spec fn view(&self) -> Seq<ModelEntryView> {
        self.models@.map_values(|model: LoadedModel| model.registry_entry@)
    }
}

impl Default for AppState {
    fn default() -> (state: Self)
        ensures
            state@ == Seq::<ModelEntryView>::empty(),
    {
        AppState::new()
    }
}

impl AppState {
    /// Whether the registry is in order.
    pub open spec fn wf(&self) -> bool {
        well_formed(self@)
    }

    /// A registry without models.
    pub fn new() -> (state: Self)
        ensures
            state@ == Seq::<ModelEntryView>::empty(),
            state.wf(),
    {
        let state = AppState { models: Vec::new() };
        assert(state@ == Seq::<ModelEntryView>::empty());
        state
    }

    /// The number of registered models.
    pub fn len(&self) -> (n: usize)
        ensures
            n == self@.len(),
    {
        self.models.len()
    }

    /// The position of the model `id`.
    pub fn position(&self, id: &str) -> (found: Option<usize>)
        ensures
            match found {
                Some(i) => find_model(self@, id@) == Some(i as int) && i < self.models.len(),
                None => find_model(self@, id@) is None,
            },
    {
        let mut i: usize = 0;
        while i < self.models.len()
            invariant
                i <= self.models.len(),
                forall|k: int| 0 <= k < i ==> (#[trigger] self@[k]).id != id@,
            decreases self.models.len() - i,
        {
            if same_text(self.models[i].registry_entry.id.as_str(), id) {
                proof {
                    lemma_find_model_is(self@, id@, i as int);
                }
                return Some(i);
            }
            i += 1;
        }
        proof {
            lemma_find_model(self@, id@);
        }
        None
    }

    /// Registers a model, not loaded. An id that is registered already is a
    /// conflict and leaves the registry as it is.
    pub fn register(&mut self, request: &RegisterModelRequest) -> (result: Result<
        ModelRegistryEntry,
        RegistryError,
    >)
        ensures
            (final(self)@, entry_result_view(result)) == register_outcome(old(self)@, request@),
            result is Err ==> *final(self) == *old(self),
            old(self).wf() ==> final(self).wf(),
    {
        match self.position(request.id.as_str()) {
            Some(_) => Err(RegistryError::Conflict),
            None => {
                let entry = request.to_entry();
                let stored = LoadedModel {
                    registry_entry: request.to_entry(),
                    last_accessed: system_now(),
                };
                self.models.push(stored);
                proof {
                    assert(self@ == old(self)@.push(request@));
                    lemma_find_model(old(self)@, request@.id);
                }
                Ok(entry)
            },
        }
    }

    /// The registered models, in the order of their registration.
    pub fn list(&self) -> (entries: Vec<ModelRegistryEntry>)
        ensures
            entries_view(entries@) == self@,
    {
        let mut entries: Vec<ModelRegistryEntry> = Vec::new();
        let mut i: usize = 0;
        while i < self.models.len()
            invariant
                i <= self.models.len(),
                entries@.len() == i,
                forall|k: int| 0 <= k < i ==> (#[trigger] entries@[k])@ == self@[k],
            decreases self.models.len() - i,
        {
            entries.push(self.models[i].registry_entry.clone());
            i += 1;
        }
        assert(entries_view(entries@) == self@);
        entries
    }

    /// Marks the model `id` as loaded at the time `now`.
    pub fn load_at(&mut self, id: &str, now: Timestamp) -> (result: Result<(), RegistryError>)
        ensures
            (final(self)@, result) == load_outcome(old(self)@, id@, now),
            result is Err ==> *final(self) == *old(self),
            old(self).wf() ==> final(self).wf(),
    {
        match self.position(id) {
            None => Err(RegistryError::NotFound),
            Some(i) => {
                if self.models[i].registry_entry.loaded {
                    return Err(RegistryError::AlreadyLoaded);
                }
                self.models[i].registry_entry.loaded = true;
                self.models[i].registry_entry.loaded_at = Some(now);
                self.models[i].last_accessed = system_now();
                proof {
                    assert(self@ == old(self)@.update(
                        i as int,
                        old(self)@[i as int].loaded_at_time(now),
                    ));
                }
                Ok(())
            },
        }
    }

    /// Marks the model `id` as loaded now.
    pub fn load(&mut self, id: &str) -> (result: Result<(), RegistryError>)
        ensures
            exists|now: Timestamp|
                (final(self)@, result) == #[trigger] load_outcome(old(self)@, id@, now),
            result is Err ==> *final(self) == *old(self),
            old(self).wf() ==> final(self).wf(),
    {
        let now = utc_now();
        self.load_at(id, now)
    }

    /// Marks the model `id` as not loaded. A model that is not loaded stays so.
    pub fn unload(&mut self, id: &str) -> (result: Result<(), RegistryError>)
        ensures
            (final(self)@, result) == unload_outcome(old(self)@, id@),
            result is Err ==> *final(self) == *old(self),
            old(self).wf() ==> final(self).wf(),
    {
        match self.position(id) {
            None => Err(RegistryError::NotFound),
            Some(i) => {
                self.models[i].registry_entry.loaded = false;
                self.models[i].registry_entry.loaded_at = None;
                proof {
                    assert(self@ == old(self)@.update(i as int, old(self)@[i as int].unloaded()));
                }
                Ok(())
            },
        }
    }

    /// A copy of the entry of the model `id` where it is loaded.
    pub fn resolve_loaded(&self, id: &str) -> (result: Result<ModelRegistryEntry, RegistryError>)
        ensures
            entry_result_view(result) == resolve_outcome(self@, id@),
    {
        match self.position(id) {
            None => Err(RegistryError::NotFound),
            Some(i) => {
                if self.models[i].registry_entry.loaded {
                    Ok(self.models[i].registry_entry.clone())
                } else {
                    Err(RegistryError::NotLoaded)
                }
            },
        }
    }
}

/// Replacing an entry by one with the same id does not change where ids are found.
pub proof fn lemma_find_model_after_update(
    entries: Seq<ModelEntryView>,
    at: int,
    entry: ModelEntryView,
    id: Seq<char>,
)
    requires
        0 <= at < entries.len(),
        entry.id == entries[at].id,
    ensures
        find_model(entries.update(at, entry), id) == find_model(entries, id),
{
    let changed = entries.update(at, entry);
    lemma_find_model(entries, id);
    lemma_find_model(changed, id);
    match find_model(entries, id) {
        Some(i) => {
            assert(changed[i].id == id);
            assert forall|k: int| 0 <= k < i implies (#[trigger] changed[k]).id != id by {
                assert(entries[k].id != id);
            }
            lemma_find_model_is(changed, id, i);
        },
        None => {
            if find_model(changed, id) is Some {
                let j = find_model(changed, id).unwrap();
                assert(entries[j].id == id);
            }
        },
    }
}

/// A second registration under the same id is a conflict and leaves the
/// registry as the first one left it, whatever the first one returned.
pub proof fn lemma_register_twice(
    entries: Seq<ModelEntryView>,
    first: ModelEntryView,
    second: ModelEntryView,
)
    requires
        first.id == second.id,
    ensures
        ({
            let (registered, _) = register_outcome(entries, first);
            register_outcome(registered, second) == (registered, Err::<
                ModelEntryView,
                RegistryError,
            >(RegistryError::Conflict))
        }),
{
    let (registered, _) = register_outcome(entries, first);
    lemma_find_model(entries, first.id);
    if find_model(entries, first.id) is None {
        lemma_find_model_is(registered, first.id, entries.len() as int);
    }
}

/// Every operation keeps a registry in order.
pub proof fn lemma_operations_keep_order(
    entries: Seq<ModelEntryView>,
    entry: ModelEntryView,
    id: Seq<char>,
    now: Timestamp,
)
    requires
        well_formed(entries),
    ensures
        well_formed(register_outcome(entries, entry).0),
        well_formed(load_outcome(entries, id, now).0),
        well_formed(unload_outcome(entries, id).0),
{
    lemma_find_model(entries, entry.id);
    lemma_find_model(entries, id);
}

/// Loading a model that was never registered fails with `NotFound` and changes nothing.
pub proof fn lemma_load_unregistered(entries: Seq<ModelEntryView>, id: Seq<char>, now: Timestamp)
    requires
        forall|i: int| 0 <= i < entries.len() ==> (#[trigger] entries[i]).id != id,
    ensures
        load_outcome(entries, id, now) == (entries, Err::<(), RegistryError>(RegistryError::NotFound)),
{
    lemma_find_model(entries, id);
}

/// A model that was loaded with success is loaded, with the time of loading
/// recorded; loading it again fails with `AlreadyLoaded` and changes nothing.
pub proof fn lemma_load_twice(
    entries: Seq<ModelEntryView>,
    id: Seq<char>,
    now: Timestamp,
    later: Timestamp,
)
    requires
        load_outcome(entries, id, now).1 is Ok,
    ensures
        ({
            let (loaded, _) = load_outcome(entries, id, now);
            &&& resolve_outcome(loaded, id) matches Ok(entry) && entry.loaded_at == Some(now)
            &&& load_outcome(loaded, id, later) == (loaded, Err::<(), RegistryError>(
                RegistryError::AlreadyLoaded,
            ))
        }),
{
    let i = find_model(entries, id).unwrap();
    lemma_find_model(entries, id);
    lemma_find_model_after_update(entries, i, entries[i].loaded_at_time(now), id);
}

/// Unloading a registered model succeeds whether or not it is loaded, and
/// leaves it registered, not loaded and without a time of loading; so
/// unloading it again succeeds and changes nothing more.
pub proof fn lemma_unload_clears(entries: Seq<ModelEntryView>, id: Seq<char>)
    requires
        find_model(entries, id) is Some,
    ensures
        ({
            let (unloaded, result) = unload_outcome(entries, id);
            let i = find_model(entries, id).unwrap();
            &&& result is Ok
            &&& find_model(unloaded, id) == Some(i)
            &&& !unloaded[i].loaded
            &&& unloaded[i].loaded_at is None
            &&& resolve_outcome(unloaded, id) == Err::<ModelEntryView, RegistryError>(
                RegistryError::NotLoaded,
            )
            &&& unload_outcome(unloaded, id) == (unloaded, Ok::<(), RegistryError>(()))
        }),
{
    let i = find_model(entries, id).unwrap();
    lemma_find_model(entries, id);
    lemma_find_model_after_update(entries, i, entries[i].unloaded(), id);
    let unloaded = unload_outcome(entries, id).0;
    assert(unloaded.update(i, unloaded[i].unloaded()) == unloaded);
}

/// Loading and then unloading a model that was not loaded gives the registry back.
pub proof fn lemma_load_then_unload(entries: Seq<ModelEntryView>, id: Seq<char>, now: Timestamp)
    requires
        well_formed(entries),
        load_outcome(entries, id, now).1 is Ok,
    ensures
        unload_outcome(load_outcome(entries, id, now).0, id) == (entries, Ok::<(), RegistryError>(())),
{
    let i = find_model(entries, id).unwrap();
    lemma_find_model(entries, id);
    lemma_find_model_after_update(entries, i, entries[i].loaded_at_time(now), id);
    let loaded = load_outcome(entries, id, now).0;
    assert(entries[i].consistent());
    assert(loaded.update(i, loaded[i].unloaded()) == entries);
}

} // verus!
