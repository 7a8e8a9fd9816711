//! The server's shared key/value metadata: a cache of its properties, reads of
//! the default devices and sample rate, and the writes that change them.
use vstd::prelude::*;
use vstd::string::*;
use crate::model::GraphError;
use crate::text::{decimal, parse_u32, spec_parse_u32, str_eq, str_starts_with, starts_with_seq};

verus! {

/// The subject id that global metadata properties are set on.
pub const GLOBAL_SUBJECT_ID: u32 = 0;

/// What the server's JSON parser yields as the string member "name" of the
/// object that `text` encodes, if `text` parses as JSON and has one.
pub uninterp spec fn json_name_of(text: Seq<char>) -> Option<Seq<char>>;

/// Relies on `serde_json::from_str` (reading the text as a JSON value), then
/// `Value::get` and `Value::as_str` to pick its string member "name". The result
/// depends on the text alone.
#[verifier::external_body]
fn json_name(text: &str) -> (r: Option<String>)
    ensures
        match r {
            Some(s) => json_name_of(text@) == Some(s@),
            None => json_name_of(text@) is None,
        },
{
    serde_json::from_str::<serde_json::Value>(text).ok()?.get("name")?.as_str().map(String::from)
}

/// One property write on a metadata object.
#[derive(Debug)]
pub struct MetadataWrite {
    pub subject: u32,
    pub key: String,
    pub value_type: Option<String>,
    pub value: Option<String>,
}

/// The property list holds `key` with value `val`.
pub open spec fn holds(v: Seq<(String, String)>, key: Seq<char>, val: Seq<char>) -> bool {
    exists|i: int| 0 <= i < v.len() && v[i].0@ == key && v[i].1@ == val
}

pub open spec fn absent(v: Seq<(String, String)>, key: Seq<char>) -> bool {
    forall|i: int| 0 <= i < v.len() ==> v[i].0@ != key
}

pub open spec fn unique_keys(v: Seq<(String, String)>) -> bool {
    forall|i: int, j: int| 0 <= i < j < v.len() ==> v[i].0@ != v[j].0@
}

/// The value cached under `key`.
pub open spec fn lookup(v: Seq<(String, String)>, key: Seq<char>) -> Option<Seq<char>> {
    if absent(v, key) {
        None
    } else {
        Some(v[choose|i: int| 0 <= i < v.len() && v[i].0@ == key].1@)
    }
}

/// A key of the "default audio device" family.
pub open spec fn spec_is_default_audio_key(key: Seq<char>) -> bool {
    starts_with_seq(key, "default.audio."@) || starts_with_seq(key, "default.configured.audio."@)
}

pub fn is_default_audio_key(key: &str) -> (r: bool)
    ensures
        r == spec_is_default_audio_key(key@),
{
    str_starts_with(key, "default.audio.") || str_starts_with(key, "default.configured.audio.")
}

/// The name a default-device key records: the "name" member of its JSON value.
pub open spec fn recorded_name(v: Seq<(String, String)>, key: Seq<char>) -> Option<Seq<char>> {
    match lookup(v, key) {
        Some(text) => json_name_of(text),
        None => None,
    }
}

/// The JSON value that records a node name as a default device.
pub open spec fn default_value(name: Seq<char>) -> Seq<char> {
    "{ \"name\": \""@ + name + "\" }"@
}

proof fn lemma_lookup_unique(v: Seq<(String, String)>, i: int)
    requires
        unique_keys(v),
        0 <= i < v.len(),
    ensures
        lookup(v, v[i].0@) == Some(v[i].1@),
{
    let k = choose|k: int| 0 <= k < v.len() && v[k].0@ == v[i].0@;
    if k != i {
        if k < i {
            assert(v[k].0@ != v[i].0@);
        } else {
            assert(v[i].0@ != v[k].0@);
        }
    }
}

pub struct MetadataManager {
    pub default_available: bool,
    pub settings_available: bool,
    pub properties: Vec<(String, String)>,
    pub settings_properties: Vec<(String, String)>,
}

fn find_key(v: &Vec<(String, String)>, key: &str) -> (r: Option<usize>)
    ensures
        match r {
            Some(i) => i < v@.len() && v@[i as int].0@ == key@,
            None => absent(v@, key@),
        },
{
    let mut i: usize = 0;
    while i < v.len()
        invariant
            0 <= i <= v@.len(),
            forall|j: int| 0 <= j < i ==> v@[j].0@ != key@,
        decreases v@.len() - i,
    {
        if str_eq(v[i].0.as_str(), key) {
            return Some(i);
        }
        i = i + 1;
    }
    None
}

fn get_property<'a>(v: &'a Vec<(String, String)>, key: &str) -> (r: Option<&'a String>)
    requires
        unique_keys(v@),
    ensures
        match r {
            Some(s) => lookup(v@, key@) == Some(s@),
            None => lookup(v@, key@) is None,
        },
{
    match find_key(v, key) {
        Some(i) => {
            proof {
                lemma_lookup_unique(v@, i as int);
            }
            Some(&v[i].1)
        },
        None => None,
    }
}

/// Records a property change in the cache: a value sets the key, no value
/// removes it.
pub fn cache_property(v: &mut Vec<(String, String)>, key: String, value: Option<String>)
    requires
        unique_keys(old(v)@),
    ensures
        unique_keys(final(v)@),
        forall|k: Seq<char>| k != key@ ==> lookup(final(v)@, k) == lookup(old(v)@, k),
        lookup(final(v)@, key@) == match value {
            Some(x) => Some(x@),
            None => None::<Seq<char>>,
        },
{
    let ghost o = v@;
    let ghost kv = key@;
    match find_key(v, key.as_str()) {
        Some(i) => {
            match value {
                Some(x) => {
                    let ghost xv = x@;
                    v.set(i, (key, x));
                    proof {
                        assert forall|a: int, b: int| 0 <= a < b < v@.len() implies v@[a].0@ != v@[b].0@ by {
                            assert(o[a].0@ != o[b].0@);
                        }
                        lemma_lookup_unique(v@, i as int);
                        assert forall|k: Seq<char>| k != kv implies lookup(v@, k) == lookup(o, k) by {
                            if !absent(o, k) {
                                let j = choose|j: int| 0 <= j < o.len() && o[j].0@ == k;
                                lemma_lookup_unique(o, j);
                                lemma_lookup_unique(v@, j);
                            } else {
                                assert(absent(v@, k));
                            }
                        }
                    }
                },
                None => {
                    v.remove(i);
                    proof {
                        assert forall|a: int, b: int| 0 <= a < b < v@.len() implies v@[a].0@ != v@[b].0@ by {
                            if b < i {
                                assert(o[a].0@ != o[b].0@);
                            } else if a < i {
                                assert(o[a].0@ != o[b + 1].0@);
                            } else {
                                assert(o[a + 1].0@ != o[b + 1].0@);
                            }
                        }
                        assert forall|j: int| 0 <= j < v@.len() implies v@[j].0@ != kv by {
                            if j < i {
                                assert(o[j].0@ != o[i as int].0@);
                            } else {
                                assert(o[i as int].0@ != o[j + 1].0@);
                            }
                        }
                        assert forall|k: Seq<char>| k != kv implies lookup(v@, k) == lookup(o, k) by {
                            if !absent(o, k) {
                                let j = choose|j: int| 0 <= j < o.len() && o[j].0@ == k;
                                lemma_lookup_unique(o, j);
                                if j < i {
                                    lemma_lookup_unique(v@, j);
                                } else {
                                    assert(j != i);
                                    lemma_lookup_unique(v@, j - 1);
                                }
                            } else {
                                assert forall|j: int| 0 <= j < v@.len() implies v@[j].0@ != k by {
                                    if j < i {
                                        assert(v@[j] == o[j]);
                                    } else {
                                        assert(v@[j] == o[j + 1]);
                                    }
                                }
                            }
                        }
                    }
                },
            }
        },
        None => {
            match value {
                Some(x) => {
                    v.push((key, x));
                    proof {
                        assert forall|a: int, b: int| 0 <= a < b < v@.len() implies v@[a].0@ != v@[b].0@ by {
                            if b < o.len() {
                                assert(o[a].0@ != o[b].0@);
                            }
                        }
                        lemma_lookup_unique(v@, o.len() as int);
                        assert forall|k: Seq<char>| k != kv implies lookup(v@, k) == lookup(o, k) by {
                            if !absent(o, k) {
                                let j = choose|j: int| 0 <= j < o.len() && o[j].0@ == k;
                                lemma_lookup_unique(o, j);
                                lemma_lookup_unique(v@, j);
                            } else {
                                assert forall|j: int| 0 <= j < v@.len() implies v@[j].0@ != k by {
                                    if j < o.len() {
                                        assert(v@[j] == o[j]);
                                    }
                                }
                            }
                        }
                    }
                },
                None => {},
            }
        },
    }
}

fn text(s: &str) -> (r: String)
    ensures
        r@ == s@,
{
    String::from_str(s)
}

impl MetadataManager {
    pub open spec fn wf(&self) -> bool {
        unique_keys(self.properties@) && unique_keys(self.settings_properties@)
    }

    pub fn new() -> (r: Self)
        ensures
            r.wf(),
            !r.default_available,
            !r.settings_available,
            r.properties@.len() == 0,
            r.settings_properties@.len() == 0,
    {
        MetadataManager {
            default_available: false,
            settings_available: false,
            properties: Vec::new(),
            settings_properties: Vec::new(),
        }
    }

    /// The default-device metadata object was found on the server.
    pub fn register_default_metadata(&mut self)
        ensures
            *final(self) == (MetadataManager { default_available: true, ..*old(self) }),
    {
        self.default_available = true;
    }

    /// The settings metadata object was found on the server.
    pub fn register_settings_metadata(&mut self)
        ensures
            *final(self) == (MetadataManager { settings_available: true, ..*old(self) }),
    {
        self.settings_available = true;
    }

    pub fn is_available(&self) -> (r: bool)
        ensures
            r == self.default_available,
    {
        self.default_available
    }

    pub fn is_settings_available(&self) -> (r: bool)
        ensures
            r == self.settings_available,
    {
        self.settings_available
    }

    /// A property of the default-device object changed. Only global
    /// properties are cached. Returns whether the graph must be republished:
    /// the key names a default audio device.
    pub fn handle_default_property(&mut self, subject: u32, key: Option<String>, value: Option<String>) -> (r: bool)
        requires
            old(self).wf(),
        ensures
            final(self).wf(),
            final(self).default_available == old(self).default_available,
            final(self).settings_available == old(self).settings_available,
            final(self).settings_properties == old(self).settings_properties,
            (subject != GLOBAL_SUBJECT_ID || key is None) ==> !r && final(self).properties == old(self).properties,
            (subject == GLOBAL_SUBJECT_ID && key is Some) ==> {
                let k = key->0@;
                &&& r == spec_is_default_audio_key(k)
                &&& lookup(final(self).properties@, k) == match value {
                    Some(x) => Some(x@),
                    None => None::<Seq<char>>,
                }
                &&& forall|q: Seq<char>| q != k ==> lookup(final(self).properties@, q) == lookup(old(self).properties@, q)
            },
    {
        if subject != GLOBAL_SUBJECT_ID {
            return false;
        }
        match key {
            None => false,
            Some(k) => {
                let notify = is_default_audio_key(k.as_str());
                cache_property(&mut self.properties, k, value);
                notify
            },
        }
    }

    /// A property of the settings object changed. Returns whether the graph
    /// must be republished: the key is the clock rate.
    pub fn handle_settings_property(&mut self, subject: u32, key: Option<String>, value: Option<String>) -> (r: bool)
        requires
            old(self).wf(),
        ensures
            final(self).wf(),
            final(self).default_available == old(self).default_available,
            final(self).settings_available == old(self).settings_available,
            final(self).properties == old(self).properties,
            (subject != GLOBAL_SUBJECT_ID || key is None) ==> !r && final(self).settings_properties == old(self).settings_properties,
            (subject == GLOBAL_SUBJECT_ID && key is Some) ==> {
                let k = key->0@;
                &&& r == (k == "clock.rate"@)
                &&& lookup(final(self).settings_properties@, k) == match value {
                    Some(x) => Some(x@),
                    None => None::<Seq<char>>,
                }
                &&& forall|q: Seq<char>| q != k ==> lookup(final(self).settings_properties@, q) == lookup(old(self).settings_properties@, q)
            },
    {
        if subject != GLOBAL_SUBJECT_ID {
            return false;
        }
        match key {
            None => false,
            Some(k) => {
                let notify = str_eq(k.as_str(), "clock.rate");
                cache_property(&mut self.settings_properties, k, value);
                notify
            },
        }
    }

    fn get_device_name_from_metadata(&self, key: &str) -> (r: Option<String>)
        requires
            self.wf(),
        ensures
            match r {
                Some(s) => recorded_name(self.properties@, key@) == Some(s@),
                None => recorded_name(self.properties@, key@) is None,
            },
    {
        match get_property(&self.properties, key) {
            Some(text) => json_name(text.as_str()),
            None => None,
        }
    }

    /// The default sink's node name: from the current key, else from the
    /// configured key.
    pub fn get_default_sink(&self) -> (r: Option<String>)
        requires
            self.wf(),
        ensures
            ({
                let cur = recorded_name(self.properties@, "default.audio.sink"@);
                let conf = recorded_name(self.properties@, "default.configured.audio.sink"@);
                match r {
                    Some(s) => (cur == Some(s@)) || (cur is None && conf == Some(s@)),
                    None => cur is None && conf is None,
                }
            }),
    {
        match self.get_device_name_from_metadata("default.audio.sink") {
            Some(s) => Some(s),
            None => self.get_device_name_from_metadata("default.configured.audio.sink"),
        }
    }

    /// The default source's node name: from the current key, else from the
    /// configured key.
    pub fn get_default_source(&self) -> (r: Option<String>)
        requires
            self.wf(),
        ensures
            ({
                let cur = recorded_name(self.properties@, "default.audio.source"@);
                let conf = recorded_name(self.properties@, "default.configured.audio.source"@);
                match r {
                    Some(s) => (cur == Some(s@)) || (cur is None && conf == Some(s@)),
                    None => cur is None && conf is None,
                }
            }),
    {
        match self.get_device_name_from_metadata("default.audio.source") {
            Some(s) => Some(s),
            None => self.get_device_name_from_metadata("default.configured.audio.source"),
        }
    }

    /// The cached clock rate, when it reads as a number.
    pub fn get_sample_rate(&self) -> (r: Option<u32>)
        requires
            self.wf(),
        ensures
            r == match lookup(self.settings_properties@, "clock.rate"@) {
                Some(t) => spec_parse_u32(t),
                None => None,
            },
    {
        match get_property(&self.settings_properties, "clock.rate") {
            Some(t) => parse_u32(t.as_str()),
            None => None,
        }
    }

    /// The writes that make `node_name` the default of the given kind
    /// ("sink" or "source"): the current key and the configured key, so that
    /// the choice survives a restart.
    fn set_default_audio_device(&self, node_name: &str, kind: &str) -> (r: Result<Vec<MetadataWrite>, GraphError>)
        ensures
            !self.default_available ==> r == Err::<Vec<MetadataWrite>, GraphError>(GraphError::MetadataUnavailable),
            self.default_available ==> (r matches Ok(w) && default_writes(w@, node_name@, kind@)),
    {
        if !self.default_available {
            return Err(GraphError::MetadataUnavailable);
        }
        let value = text("{ \"name\": \"").concat(node_name).concat("\" }");
        let value2 = text("{ \"name\": \"").concat(node_name).concat("\" }");
        let key = text("default.audio.").concat(kind);
        let configured = text("default.configured.audio.").concat(kind);
        let mut w: Vec<MetadataWrite> = Vec::new();
        w.push(MetadataWrite { subject: GLOBAL_SUBJECT_ID, key, value_type: Some(text("Spa:String:JSON")), value: Some(value) });
        w.push(MetadataWrite { subject: GLOBAL_SUBJECT_ID, key: configured, value_type: Some(text("Spa:String:JSON")), value: Some(value2) });
        Ok(w)
    }

    pub fn set_default_sink(&self, node_name: &str) -> (r: Result<Vec<MetadataWrite>, GraphError>)
        ensures
            !self.default_available ==> r == Err::<Vec<MetadataWrite>, GraphError>(GraphError::MetadataUnavailable),
            self.default_available ==> (r matches Ok(w) && default_writes(w@, node_name@, "sink"@)),
    {
        self.set_default_audio_device(node_name, "sink")
    }

    pub fn set_default_source(&self, node_name: &str) -> (r: Result<Vec<MetadataWrite>, GraphError>)
        ensures
            !self.default_available ==> r == Err::<Vec<MetadataWrite>, GraphError>(GraphError::MetadataUnavailable),
            self.default_available ==> (r matches Ok(w) && default_writes(w@, node_name@, "source"@)),
    {
        self.set_default_audio_device(node_name, "source")
    }

    /// The writes that set the global sample rate and force it at once.
    pub fn set_sample_rate(&self, sample_rate: u32) -> (r: Result<Vec<MetadataWrite>, GraphError>)
        ensures
            !self.settings_available ==> r == Err::<Vec<MetadataWrite>, GraphError>(GraphError::MetadataUnavailable),
            self.settings_available ==> (r matches Ok(w) && rate_writes(w@, sample_rate)),
    {
        if !self.settings_available {
            return Err(GraphError::MetadataUnavailable);
        }
        let mut w: Vec<MetadataWrite> = Vec::new();
        w.push(MetadataWrite { subject: GLOBAL_SUBJECT_ID, key: text("clock.rate"), value_type: None, value: Some(crate::text::u32_to_decimal(sample_rate)) });
        w.push(MetadataWrite { subject: GLOBAL_SUBJECT_ID, key: text("clock.force-rate"), value_type: None, value: Some(crate::text::u32_to_decimal(sample_rate)) });
        Ok(w)
    }
}

/// `w` writes the JSON name record under the current and the configured
/// default key of the kind, in that order.
pub open spec fn default_writes(w: Seq<MetadataWrite>, name: Seq<char>, kind: Seq<char>) -> bool {
    &&& w.len() == 2
    &&& w[0].subject == GLOBAL_SUBJECT_ID && w[1].subject == GLOBAL_SUBJECT_ID
    &&& w[0].key@ == "default.audio."@ + kind
    &&& w[1].key@ == "default.configured.audio."@ + kind
    &&& w[0].value_type matches Some(t) && t@ == "Spa:String:JSON"@
    &&& w[1].value_type matches Some(t) && t@ == "Spa:String:JSON"@
    &&& w[0].value matches Some(v) && v@ == default_value(name)
    &&& w[1].value matches Some(v) && v@ == default_value(name)
}

/// `w` writes the rate in decimal under the rate key and the force-rate key.
pub open spec fn rate_writes(w: Seq<MetadataWrite>, rate: u32) -> bool {
    &&& w.len() == 2
    &&& w[0].subject == GLOBAL_SUBJECT_ID && w[1].subject == GLOBAL_SUBJECT_ID
    &&& w[0].key@ == "clock.rate"@ && w[1].key@ == "clock.force-rate"@
    &&& w[0].value_type is None && w[1].value_type is None
    &&& w[0].value matches Some(v) && v@ == decimal(rate as nat)
    &&& w[1].value matches Some(v) && v@ == decimal(rate as nat)
}

} // verus!
