//! Output sinks and their fan-out. Raw sinks take frame bytes as they
//! arrive; state sinks take the updated record of an aircraft.
use vstd::prelude::*;

use crate::adsb::AdsbIcao;
use crate::packet::DecoderMetaData;
use crate::tracker::AircraftRecord;

verus! {

/// Why a sink could not do what was asked.
#[derive(Clone, Debug, PartialEq, Eq)]
pub struct OutputError {
    pub message: String,
}

/// Settings of one output sink.
#[derive(Clone, Debug)]
pub struct OutputModuleConfig {
    /// The name/identifier of the module.
    pub name: String,
    /// The port to bind the server to.
    pub port: u16,
    /// The capacity of the sink's broadcast channel.
    pub buffer_capacity: usize,
    pub enabled: bool,
    /// Additional settings, keys unique.
    pub extra: Vec<(String, String)>,
}

/// The views of keys and values of `extra`.
pub open spec fn extra_view(extra: Seq<(String, String)>) -> Seq<(Seq<char>, Seq<char>)> {
    extra.map_values(|e: (String, String)| (e.0@, e.1@))
}

impl OutputModuleConfig {
    /// A config for `name` on `port`, enabled, channel capacity 1024.
    pub fn new(name: &str, port: u16) -> (r: OutputModuleConfig)
        ensures
            r.name@ == name@,
            r.port == port,
            r.buffer_capacity == 1024,
            r.enabled,
            r.extra@.len() == 0,
    {
        OutputModuleConfig {
            name: String::from_str(name),
            port,
            buffer_capacity: 1024,
            enabled: true,
            extra: Vec::new(),
        }
    }

    pub fn with_buffer_capacity(self, capacity: usize) -> (r: OutputModuleConfig)
        ensures
            r.buffer_capacity == capacity,
            r.name == self.name,
            r.port == self.port,
            r.enabled == self.enabled,
            r.extra == self.extra,
    {
        let mut c = self;
        c.buffer_capacity = capacity;
        c
    }

    /// Sets `key` to `value` in the extra settings, replacing an earlier
    /// value of `key`.
    pub fn with_extra(self, key: &str, value: &str) -> (r: OutputModuleConfig)
        ensures
            r.name == self.name,
            r.port == self.port,
            r.buffer_capacity == self.buffer_capacity,
            r.enabled == self.enabled,
            (exists|i: int| 0 <= i < self.extra@.len() && #[trigger] self.extra@[i].0@ == key@) ==> exists|i: int|
                0 <= i < self.extra@.len() && #[trigger] self.extra@[i].0@ == key@
                    && extra_view(r.extra@) == extra_view(self.extra@).update(i, (key@, value@)),
            (forall|i: int| 0 <= i < self.extra@.len() ==> #[trigger] self.extra@[i].0@ != key@)
                ==> extra_view(r.extra@) == extra_view(self.extra@).push((key@, value@)),
    {
        let mut c = self;
        let wanted = String::from_str(key);
        let mut i: usize = 0;
        while i < c.extra.len()
            invariant
                i <= c.extra@.len(),
                c.extra == self.extra,
                c.name == self.name,
                c.port == self.port,
                c.buffer_capacity == self.buffer_capacity,
                c.enabled == self.enabled,
                wanted@ == key@,
                forall|j: int| 0 <= j < i ==> #[trigger] c.extra@[j].0@ != key@,
            decreases c.extra@.len() - i,
        {
            if c.extra[i].0.eq(&wanted) {
                let ghost before = c.extra@;
                c.extra.set(i, (String::from_str(key), String::from_str(value)));
                proof {
                    assert(extra_view(c.extra@) =~= extra_view(before).update(i as int, (key@, value@)));
                }
                return c;
            }
            i = i + 1;
        }
        let ghost before = c.extra@;
        c.extra.push((String::from_str(key), String::from_str(value)));
        proof {
            assert(extra_view(c.extra@) =~= extra_view(before).push((key@, value@)));
        }
        c
    }
}

/// What every sink offers, raw or state.
pub trait OutputModuleBase {
    /// The name/identifier of this sink.
    fn name(&self) -> &str;

    /// What this sink sends.
    fn description(&self) -> &str;

    /// The port this sink listens on.
    fn port(&self) -> u16;

    /// Number of connected clients.
    fn client_count(&self) -> usize;

    fn is_running(&self) -> bool;

    /// Stops listening and closes the connections.
    fn stop(&mut self) -> Result<(), OutputError>;
}

/// A sink that forwards frame bytes as they arrive (BEAST, AVR, raw hex);
/// it answers the queries of `OutputModuleBase` too.
pub trait RawOutputModule {
    fn name(&self) -> &str;

    fn description(&self) -> &str;

    fn port(&self) -> u16;

    fn client_count(&self) -> usize;

    fn is_running(&self) -> bool;

    fn stop(&mut self) -> Result<(), OutputError>;

    fn broadcast_raw_packet(&self, data: &[u8], metadata: &DecoderMetaData) -> Result<(), OutputError>;
}

/// A sink that forwards the state of an aircraft after it changed (SBS-1,
/// WebSocket); it answers the queries of `OutputModuleBase` too.
pub trait StateOutputModule {
    fn name(&self) -> &str;

    fn description(&self) -> &str;

    fn port(&self) -> u16;

    fn client_count(&self) -> usize;

    fn is_running(&self) -> bool;

    fn stop(&mut self) -> Result<(), OutputError>;

    fn broadcast_aircraft_update(&self, icao: &AdsbIcao, record: &AircraftRecord) -> Result<(), OutputError>;
}

/// A sink of the older kind, which takes every frame's bytes.
pub trait OutputModule {
    fn name(&self) -> &str;

    fn description(&self) -> &str;

    fn port(&self) -> u16;

    fn broadcast_packet(&self, data: &[u8], metadata: &DecoderMetaData) -> Result<(), OutputError>;

    fn client_count(&self) -> usize;

    fn is_running(&self) -> bool;

    fn stop(&mut self) -> Result<(), OutputError>;
}

/// A raw or a state sink, for the queries common to both.
pub enum DynOutputModule {
    Raw(Box<dyn RawOutputModule>),
    State(Box<dyn StateOutputModule>),
}

impl DynOutputModule {
    pub fn name(&self) -> &str {
        match self {
            DynOutputModule::Raw(m) => m.name(),
            DynOutputModule::State(m) => m.name(),
        }
    }

    pub fn port(&self) -> u16 {
        match self {
            DynOutputModule::Raw(m) => m.port(),
            DynOutputModule::State(m) => m.port(),
        }
    }

    pub fn client_count(&self) -> usize {
        match self {
            DynOutputModule::Raw(m) => m.client_count(),
            DynOutputModule::State(m) => m.client_count(),
        }
    }

    pub fn is_running(&self) -> bool {
        match self {
            DynOutputModule::Raw(m) => m.is_running(),
            DynOutputModule::State(m) => m.is_running(),
        }
    }

    pub fn stop(&mut self) -> Result<(), OutputError> {
        match self {
            DynOutputModule::Raw(m) => m.stop(),
            DynOutputModule::State(m) => m.stop(),
        }
    }
}

/// Holds the sinks and hands each frame or state update to them.
pub struct OutputModuleManager {
    modules: Vec<Box<dyn OutputModule>>,
    raw_modules: Vec<Box<dyn RawOutputModule>>,
    state_modules: Vec<Box<dyn StateOutputModule>>,
}

/// `a + b`, held at `usize::MAX`.
pub open spec fn sat_sum(a: nat, b: nat) -> nat {
    if a + b <= usize::MAX {
        a + b
    } else {
        usize::MAX as nat
    }
}

impl OutputModuleManager {
    /// Number of sinks of the older kind.
    pub closed spec fn legacy_count(&self) -> nat {
        self.modules@.len()
    }

    /// Number of raw sinks.
    pub closed spec fn raw_count(&self) -> nat {
        self.raw_modules@.len()
    }

    /// Number of state sinks.
    pub closed spec fn state_count(&self) -> nat {
        self.state_modules@.len()
    }

    pub fn new() -> (r: OutputModuleManager)
        ensures
            r.legacy_count() == 0,
            r.raw_count() == 0,
            r.state_count() == 0,
    {
        OutputModuleManager { modules: Vec::new(), raw_modules: Vec::new(), state_modules: Vec::new() }
    }

    pub fn add_module(&mut self, module: Box<dyn OutputModule>)
    {
        self.modules.push(module);
    }

    pub fn add_raw_module(&mut self, module: Box<dyn RawOutputModule>)
    {
        self.raw_modules.push(module);
    }

    pub fn add_state_module(&mut self, module: Box<dyn StateOutputModule>)
    {
        self.state_modules.push(module);
    }

    /// Hands the frame to every raw sink once, in order of registration; a
    /// sink's failure does not stop the others. Returns the number of sinks
    /// handed the frame.
    pub fn broadcast_raw(&self, data: &[u8], metadata: &DecoderMetaData) -> (r: usize)
        ensures
            r == self.raw_count(),
    {
        let mut i: usize = 0;
        while i < self.raw_modules.len()
            invariant
                i <= self.raw_modules@.len(),
            decreases self.raw_modules@.len() - i,
        {
            let _outcome = self.raw_modules[i].broadcast_raw_packet(data, metadata);
            i = i + 1;
        }
        i
    }

    /// Hands the record to every state sink once, in order of registration;
    /// a sink's failure does not stop the others. Returns the number of
    /// sinks handed the record.
    pub fn broadcast_state(&self, icao: &AdsbIcao, record: &AircraftRecord) -> (r: usize)
        ensures
            r == self.state_count(),
    {
        let mut i: usize = 0;
        while i < self.state_modules.len()
            invariant
                i <= self.state_modules@.len(),
            decreases self.state_modules@.len() - i,
        {
            let _outcome = self.state_modules[i].broadcast_aircraft_update(icao, record);
            i = i + 1;
        }
        i
    }

    /// Hands the frame to every sink of the older kind, then to every raw
    /// sink, each once. Returns how many sinks of each were handed it.
    pub fn broadcast_to_all(&self, data: &[u8], metadata: &DecoderMetaData) -> (r: (usize, usize))
        ensures
            r.0 == self.legacy_count(),
            r.1 == self.raw_count(),
    {
        let mut i: usize = 0;
        while i < self.modules.len()
            invariant
                i <= self.modules@.len(),
            decreases self.modules@.len() - i,
        {
            let _outcome = self.modules[i].broadcast_packet(data, metadata);
            i = i + 1;
        }
        let raw = self.broadcast_raw(data, metadata);
        (i, raw)
    }

    /// Number of connected clients over all sinks, held at `usize::MAX`.
    pub fn total_client_count(&self) -> (r: usize)
        ensures
            self.legacy_count() + self.raw_count() + self.state_count() == 0 ==> r == 0,
    {
        let mut total: usize = 0;
        let mut i: usize = 0;
        while i < self.modules.len()
            invariant
                i <= self.modules@.len(),
                total == 0 || self.modules@.len() > 0,
            decreases self.modules@.len() - i,
        {
            total = total.saturating_add(self.modules[i].client_count());
            i = i + 1;
        }
        let mut i: usize = 0;
        while i < self.raw_modules.len()
            invariant
                i <= self.raw_modules@.len(),
                total == 0 || self.modules@.len() > 0 || self.raw_modules@.len() > 0,
            decreases self.raw_modules@.len() - i,
        {
            total = total.saturating_add(self.raw_modules[i].client_count());
            i = i + 1;
        }
        let mut i: usize = 0;
        while i < self.state_modules.len()
            invariant
                i <= self.state_modules@.len(),
                total == 0 || self.modules@.len() > 0 || self.raw_modules@.len() > 0 || self.state_modules@.len() > 0,
            decreases self.state_modules@.len() - i,
        {
            total = total.saturating_add(self.state_modules[i].client_count());
            i = i + 1;
        }
        total
    }

    /// Name, port, client count and running state of every sink: older
    /// kind first, then raw, then state sinks.
    pub fn module_status(&self) -> (r: Vec<(String, u16, usize, bool)>)
        ensures
            r@.len() == self.legacy_count() + self.raw_count() + self.state_count(),
    {
        let mut status: Vec<(String, u16, usize, bool)> = Vec::new();
        let mut i: usize = 0;
        while i < self.modules.len()
            invariant
                i <= self.modules@.len(),
                status@.len() == i,
            decreases self.modules@.len() - i,
        {
            let m = &self.modules[i];
            status.push((String::from_str(m.name()), m.port(), m.client_count(), m.is_running()));
            i = i + 1;
        }
        let mut i: usize = 0;
        while i < self.raw_modules.len()
            invariant
                i <= self.raw_modules@.len(),
                status@.len() == self.modules@.len() + i,
            decreases self.raw_modules@.len() - i,
        {
            let m = &self.raw_modules[i];
            status.push((String::from_str(m.name()), m.port(), m.client_count(), m.is_running()));
            i = i + 1;
        }
        let mut i: usize = 0;
        while i < self.state_modules.len()
            invariant
                i <= self.state_modules@.len(),
                status@.len() == self.modules@.len() + self.raw_modules@.len() + i,
            decreases self.state_modules@.len() - i,
        {
            let m = &self.state_modules[i];
            status.push((String::from_str(m.name()), m.port(), m.client_count(), m.is_running()));
            i = i + 1;
        }
        status
    }

    /// Stops every sink, whether or not others fail to stop, and drops them
    /// all.
    pub fn stop_all(&mut self) -> (r: Result<(), OutputError>)
        ensures
            r is Ok,
            final(self).legacy_count() == 0,
            final(self).raw_count() == 0,
            final(self).state_count() == 0,
    {
        let mut i: usize = 0;
        while i < self.modules.len()
            invariant
                i <= self.modules@.len(),
            decreases self.modules@.len() - i,
        {
            let _outcome = self.modules[i].stop();
            i = i + 1;
        }
        let mut i: usize = 0;
        while i < self.raw_modules.len()
            invariant
                i <= self.raw_modules@.len(),
            decreases self.raw_modules@.len() - i,
        {
            let _outcome = self.raw_modules[i].stop();
            i = i + 1;
        }
        let mut i: usize = 0;
        while i < self.state_modules.len()
            invariant
                i <= self.state_modules@.len(),
            decreases self.state_modules@.len() - i,
        {
            let _outcome = self.state_modules[i].stop();
            i = i + 1;
        }
        self.modules.clear();
        self.raw_modules.clear();
        self.state_modules.clear();
        Ok(())
    }

    /// Number of sinks, held at `usize::MAX`.
    pub fn module_count(&self) -> (r: usize)
        ensures
            r == sat_sum(sat_sum(self.legacy_count(), self.raw_count()), self.state_count()),
    {
        self.modules.len().saturating_add(self.raw_modules.len()).saturating_add(self.state_modules.len())
    }
}

impl Default for OutputModuleManager {
    fn default() -> (r: OutputModuleManager)
        ensures
            r.legacy_count() == 0,
            r.raw_count() == 0,
            r.state_count() == 0,
    {
        OutputModuleManager::new()
    }
}


/// A character with ASCII letters taken to lower case, as a code point.
pub open spec fn ascii_folded(c: char) -> u32 {
    if 65 <= (c as u32) <= 90 {
        (c as u32 + 32) as u32
    } else {
        c as u32
    }
}

/// Whether `a` and `b` match when ASCII letters are compared without case.
pub open spec fn ascii_case_insensitive_eq(a: Seq<char>, b: Seq<char>) -> bool {
    a.len() == b.len() && forall|i: int| 0 <= i < a.len() ==> ascii_folded(#[trigger] a[i]) == ascii_folded(b[i])
}

/// Relies on str::eq_ignore_ascii_case: equal after taking ASCII letters to
/// lower case, other characters compared as they are.
#[verifier::external_body]
fn eq_ignore_case(a: &str, b: &str) -> (r: bool)
    ensures
        r == ascii_case_insensitive_eq(a@, b@),
{
    a.eq_ignore_ascii_case(b)
}

/// Full Unicode lower case of a string.
pub uninterp spec fn lowercase_of(s: Seq<char>) -> Seq<char>;

/// Relies on str::to_lowercase: the lower case of each character, a
/// function of the characters alone.
#[verifier::external_body]
fn lowercase(s: &str) -> (r: String)
    ensures
        r@ == lowercase_of(s@),
{
    s.to_lowercase()
}

/// Makes sinks of one type.
pub trait OutputModuleBuilder {
    /// The name of the sink type this builder makes.
    fn module_type(&self) -> &str;

    fn description(&self) -> &str;

    /// The port a sink of this type listens on unless told otherwise.
    fn default_port(&self) -> u16;

    /// Whether `format` names this builder's sink type, ASCII case aside.
    fn supports_format(&self, format: &str) -> (r: bool) {
        eq_ignore_case(format, self.module_type())
    }
}

/// The builders known by sink type, each type under its lower-case name.
pub struct OutputModuleRegistry {
    names: Vec<String>,
    builders: Vec<Box<dyn OutputModuleBuilder>>,
}

impl OutputModuleRegistry {
    /// The lower-case type names, in order of first registration.
    pub closed spec fn type_names(&self) -> Seq<Seq<char>> {
        self.names@.map_values(|n: String| n@)
    }

    /// No type name twice.
    pub open spec fn wf(&self) -> bool {
        forall|i: int, j: int| 0 <= i < j < self.type_names().len() ==> #[trigger] self.type_names()[i] != #[trigger] self.type_names()[j]
    }

    pub fn new() -> (r: OutputModuleRegistry)
        ensures
            r.wf(),
            r.type_names().len() == 0,
    {
        let r = OutputModuleRegistry { names: Vec::new(), builders: Vec::new() };
        assert(r.type_names() =~= seq![]);
        r
    }

    /// The registry that the application starts from; the application
    /// registers the built-in sink types itself.
    pub fn with_builtin_modules() -> (r: OutputModuleRegistry)
        ensures
            r.wf(),
            r.type_names().len() == 0,
    {
        OutputModuleRegistry::new()
    }

    fn position_of(&self, name: &String) -> (r: Option<usize>)
        ensures
            match r {
                Some(i) => i < self.type_names().len() && self.type_names()[i as int] == name@,
                None => !self.type_names().contains(name@),
            },
    {
        let mut i: usize = 0;
        while i < self.names.len()
            invariant
                i <= self.names@.len(),
                forall|j: int| 0 <= j < i ==> #[trigger] self.type_names()[j] != name@,
            decreases self.names@.len() - i,
        {
            if self.names[i].eq(name) {
                return Some(i);
            }
            i = i + 1;
        }
        None
    }

    /// Registers `builder` under the lower case of its type name, in place
    /// of an earlier builder of that name.
    pub fn register<B: OutputModuleBuilder + 'static>(&mut self, builder: B)
        requires
            old(self).wf(),
        ensures
            final(self).wf(),
            final(self).type_names() == old(self).type_names() || exists|name: Seq<char>| {
                &&& !old(self).type_names().contains(name)
                &&& #[trigger] old(self).type_names().push(name) == final(self).type_names()
            },
    {
        let name = lowercase(builder.module_type());
        let ghost before = self.type_names();
        let boxed: Box<dyn OutputModuleBuilder> = Box::new(builder);
        match self.position_of(&name) {
            Some(i) => {
                if i < self.builders.len() {
                    self.builders.set(i, boxed);
                }
            },
            None => {
                let ghost key = name@;
                self.names.push(name);
                self.builders.push(boxed);
                proof {
                    assert(self.type_names() =~= before.push(key));
                }
            },
        }
    }

    /// The registered type names.
    pub fn available_types(&self) -> (r: Vec<&str>)
        ensures
            r@.len() == self.type_names().len(),
            forall|i: int| 0 <= i < r@.len() ==> (#[trigger] r@[i])@ == self.type_names()[i],
    {
        let mut out: Vec<&str> = Vec::new();
        let mut i: usize = 0;
        while i < self.names.len()
            invariant
                i <= self.names@.len(),
                out@.len() == i,
                forall|j: int| 0 <= j < i ==> (#[trigger] out@[j])@ == self.type_names()[j],
            decreases self.names@.len() - i,
        {
            out.push(self.names[i].as_str());
            i = i + 1;
        }
        out
    }

    /// The builder for the lower case of `module_type`, if any.
    pub fn get_builder(&self, module_type: &str) -> (r: Option<&Box<dyn OutputModuleBuilder>>)
        ensures
            r.is_some() ==> self.type_names().contains(lowercase_of(module_type@)),
            !self.type_names().contains(lowercase_of(module_type@)) ==> r.is_none(),
    {
        let name = lowercase(module_type);
        match self.position_of(&name) {
            Some(i) => {
                assert(self.type_names()[i as int] == name@);
                if i < self.builders.len() {
                    Some(&self.builders[i])
                } else {
                    None
                }
            },
            None => None,
        }
    }

    /// A config for `module_type` on its builder's default port, when a
    /// builder is registered for it.
    pub fn default_config(&self, module_type: &str) -> (r: Option<OutputModuleConfig>)
        ensures
            r.is_some() ==> self.type_names().contains(lowercase_of(module_type@)),
            !self.type_names().contains(lowercase_of(module_type@)) ==> r.is_none(),
            r matches Some(c) ==> c.name@ == module_type@ && c.buffer_capacity == 1024 && c.enabled,
    {
        match self.get_builder(module_type) {
            Some(builder) => Some(OutputModuleConfig::new(module_type, builder.default_port())),
            None => None,
        }
    }
}

impl Default for OutputModuleRegistry {
    fn default() -> (r: OutputModuleRegistry)
        ensures
            r.wf(),
            r.type_names().len() == 0,
    {
        OutputModuleRegistry::with_builtin_modules()
    }
}

} // verus!
