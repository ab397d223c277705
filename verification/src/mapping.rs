//! The port mapping itself: which port each application has been given.

use vstd::prelude::*;
use vstd::std_specs::cmp::PartialEqSpecImpl;
use vstd::string::StrSliceExecFns;
use vstd::utf8::encode_utf8;
use crate::error::{FileRead, PortMappingError};
use crate::model::{
    distinct_keys, has_key, identifier_chars, lemma_included_pairs_same_map, lemma_insert_pair,
    lemma_pairs_map_chars, lemma_pairs_map_domain, lemma_pairs_map_len, lemma_pairs_map_value,
    lemma_remove_pair, lemma_replace_port, lemma_total_chars_grows, lookup, pairs_map,
    total_chars,
};
use crate::order::{bytes_precede, keys_rise, lemma_rising_keys_are_distinct, precedes};
use crate::ports::pick_unused_port;
use crate::yaml::{
    decode, encode, writable, yaml_document, yaml_entries, MAX_APPLICATIONS, MAX_IDENTIFIER_CHARS,
};

verus! {

/// The ports assigned to applications, one port per application identifier.
///
/// Its view is the finite map from identifiers to ports. The pairs are kept
/// in the order of their identifiers, as a document lists them. Nothing but
/// speed rests on that order: what is proved is that no identifier is kept
/// twice.
#[derive(Debug)]
pub struct PortMapping {
    pub(crate) entries: Vec<(String, u16)>,
}

impl View for PortMapping {
    type V = Map<Seq<char>, u16>;

    closed spec fn view(&self) -> Map<Seq<char>, u16> {
        pairs_map(self.entries.deep_view())
    }
}

/// The lowest port that is assigned to an application. The ports below it
/// are the host's own.
pub const LOWEST_PORT: u16 = 1024;

/// What a `SerializationError` says of a mapping that is not writable: it
/// holds more than `MAX_APPLICATIONS` identifiers, or they hold more than
/// `MAX_IDENTIFIER_CHARS` characters in all.
pub open spec fn too_large_text() -> Seq<char> {
    "the mapping is too large for a document"@
}

/// What a `SerializationError` says of a document that does not read back.
pub open spec fn not_read_back_text() -> Seq<char> {
    "the document does not read back as the mapping"@
}

/// Decoding `document` gives pairs that denote `mapping`.
pub open spec fn reads_back(mapping: Map<Seq<char>, u16>, document: Seq<char>) -> bool {
    yaml_entries(document) matches Ok(pairs) && pairs_map(pairs) == mapping
}

/// `outcome` is what becomes of a document written for `mapping`, given what
/// decoding it gave: the document itself where the pairs read from it denote
/// the mapping, and a `SerializationError` where they denote another or the
/// decoder rejected it.
pub open spec fn accepted(
    mapping: Map<Seq<char>, u16>,
    document: Seq<char>,
    read: Result<Seq<(Seq<char>, u16)>, Seq<char>>,
    outcome: Result<String, PortMappingError>,
) -> bool {
    if read matches Ok(pairs) && pairs_map(pairs) == mapping {
        outcome matches Ok(text) && text@ == document
    } else {
        outcome matches Err(PortMappingError::SerializationError(text)) && text@
            == not_read_back_text()
    }
}

/// `outcome` is what writing `mapping` gives. It is the encoder's document
/// where the mapping is writable, the encoder gives one, and that document
/// reads back as the mapping. In each other case it is a
/// `SerializationError` that says which.
pub open spec fn encoded(
    mapping: Map<Seq<char>, u16>,
    outcome: Result<String, PortMappingError>,
) -> bool {
    if !writable(mapping) {
        outcome matches Err(PortMappingError::SerializationError(text)) && text@
            == too_large_text()
    } else {
        match yaml_document(mapping) {
            Ok(document) => if reads_back(mapping, document) {
                outcome matches Ok(text) && text@ == document
            } else {
                outcome matches Err(PortMappingError::SerializationError(text)) && text@
                    == not_read_back_text()
            },
            Err(complaint) => outcome matches Err(PortMappingError::SerializationError(text))
                && text@ == complaint,
        }
    }
}

/// `outcome` is what loading gives for what was read of the mapping file: no
/// file is an empty mapping, a failed read is an `IoError` with its cause, and
/// a text is the mapping that its pairs denote, or `MalformedData` with the
/// decoder's complaint where the decoder rejects it.
pub open spec fn loaded(read: FileRead, outcome: Result<PortMapping, PortMappingError>) -> bool {
    match read {
        FileRead::NotFound => outcome matches Ok(mapping) && mapping@ == Map::<
            Seq<char>,
            u16,
        >::empty(),
        FileRead::Failed(cause) => outcome matches Err(PortMappingError::IoError(text))
            && text@ == cause@,
        FileRead::Contents(document) => match yaml_entries(document@) {
            Ok(pairs) => outcome matches Ok(mapping) && mapping@ == pairs_map(pairs),
            Err(complaint) => outcome matches Err(PortMappingError::MalformedData(text))
                && text@ == complaint,
        },
    }
}

/// The port that an answer of the host is taken for: the port itself where
/// it is `LOWEST_PORT` or above, and none where the host gave none or gave
/// one of its own.
pub open spec fn usable(picked: Option<u16>) -> Option<u16> {
    match picked {
        Some(port) => if port >= LOWEST_PORT {
            Some(port)
        } else {
            None
        },
        None => None,
    }
}

/// `after` and `outcome` are what assigning to `app_id` makes of `before`
/// when the host answered `picked`. Without a usable port nothing changes
/// and the outcome is `NoPortsAvailable`. With one, `app_id` has that port
/// and no other, and the outcome is the port with what writing the new
/// mapping gives.
pub open spec fn assigned(
    before: Map<Seq<char>, u16>,
    app_id: Seq<char>,
    picked: Option<u16>,
    after: Map<Seq<char>, u16>,
    outcome: Result<(u16, String), PortMappingError>,
) -> bool {
    match usable(picked) {
        None => after == before && outcome matches Err(PortMappingError::NoPortsAvailable),
        Some(port) => after == before.insert(app_id, port) && match outcome {
            Ok(saved) => saved.0 == port && encoded(
                after,
                Ok::<String, PortMappingError>(saved.1),
            ),
            Err(error) => encoded(after, Err::<String, PortMappingError>(error)),
        },
    }
}

/// `after` and `outcome` are what removing `app_id` makes of `before`: the
/// identifier is gone, the others keep their ports, and the outcome is what
/// writing the new mapping gives.
pub open spec fn removed(
    before: Map<Seq<char>, u16>,
    app_id: Seq<char>,
    after: Map<Seq<char>, u16>,
    outcome: Result<String, PortMappingError>,
) -> bool {
    after == before.remove(app_id) && encoded(after, outcome)
}

impl PortMapping {
    /// Each identifier is stored once.
    #[verifier::type_invariant]
    spec fn well_formed(&self) -> bool {
        distinct_keys(self.entries.deep_view())
    }

    /// The mapping that knows no application.
    pub fn new() -> (mapping: PortMapping)
        ensures
            mapping@ == Map::<Seq<char>, u16>::empty(),
    {
        PortMapping { entries: Vec::new() }
    }

    /// The port assigned to `app_id`, or `None` where it has none.
    pub fn get_ui_port_for_app(&self, app_id: &String) -> (port: Option<u16>)
        ensures
            port == lookup(self@, app_id@),
    {
        proof {
            use_type_invariant(self);
            lemma_pairs_map_domain(self.entries.deep_view(), app_id@);
        }
        match position(&self.entries, app_id) {
            Some(i) => {
                proof {
                    lemma_pairs_map_value(self.entries.deep_view(), i as int);
                }
                Some(self.entries[i].1)
            },
            None => None,
        }
    }

    /// The mapping that a list of identifier/port pairs denotes. Where an
    /// identifier occurs more than once, its last port counts.
    pub fn from_pairs(pairs: Vec<(String, u16)>) -> (mapping: PortMapping)
        ensures
            mapping@ == pairs_map(pairs.deep_view()),
    {
        if keys_rise(&pairs) {
            proof {
                lemma_rising_keys_are_distinct(pairs.deep_view());
            }
            return PortMapping { entries: pairs };
        }
        let mut mapping = PortMapping::new();
        let mut i: usize = 0;
        while i < pairs.len()
            invariant
                i <= pairs.len(),
                mapping@ == pairs_map(pairs.deep_view().take(i as int)),
            decreases pairs.len() - i,
        {
            let app_id: String = pairs[i].0.clone();
            let port: u16 = pairs[i].1;
            mapping.put(app_id, port);
            proof {
                let all = pairs.deep_view();
                assert(all.take(i + 1).drop_last() =~= all.take(i as int));
                assert(all.take(i + 1).last() == (app_id@, port));
            }
            i += 1;
        }
        proof {
            assert(pairs.deep_view().take(i as int) =~= pairs.deep_view());
        }
        mapping
    }

    /// Loads the mapping from what was read of the mapping file.
    ///
    /// A missing file is a first run and gives the empty mapping. A text is
    /// decoded as YAML and must be a mapping from identifiers to ports.
    pub fn read_port_mapping(read: FileRead) -> (outcome: Result<PortMapping, PortMappingError>)
        ensures
            loaded(read, outcome),
    {
        match read {
            FileRead::NotFound => Ok(PortMapping::new()),
            FileRead::Failed(cause) => Err(PortMappingError::IoError(cause)),
            FileRead::Contents(document) => match decode(document.as_str()) {
                Ok(pairs) => Ok(PortMapping::from_pairs(pairs)),
                Err(complaint) => Err(PortMappingError::MalformedData(complaint)),
            },
        }
    }

    /// The number of applications that have a port.
    pub fn len(&self) -> (count: usize)
        ensures
            self@.dom().finite(),
            count == self@.dom().len(),
    {
        proof {
            use_type_invariant(self);
            lemma_pairs_map_len(self.entries.deep_view());
        }
        self.entries.len()
    }

    /// The document that holds the whole mapping, to be written over the
    /// mapping file.
    ///
    /// The encoder is asked only for a mapping within its limits, and its
    /// document is handed out only after it has been read back and found
    /// to hold the mapping.
    pub fn write_port_mapping(&self) -> (outcome: Result<String, PortMappingError>)
        ensures
            encoded(self@, outcome),
    {
        if !self.is_writable() {
            let text: String = "the mapping is too large for a document".to_string();
            return Err(PortMappingError::SerializationError(text));
        }
        match encode(self) {
            Ok(document) => {
                let read = decode(document.as_str());
                self.accept_document(document, read)
            },
            Err(complaint) => Err(PortMappingError::SerializationError(complaint)),
        }
    }

    /// Decides whether a document written for this mapping is handed out,
    /// given what decoding it gave: it is where the pairs read from it
    /// denote this mapping, and not otherwise.
    pub fn accept_document(
        &self,
        document: String,
        read: Result<Vec<(String, u16)>, String>,
    ) -> (outcome: Result<String, PortMappingError>)
        ensures
            accepted(
                self@,
                document@,
                match read {
                    Ok(pairs) => Ok(pairs.deep_view()),
                    Err(complaint) => Err(complaint@),
                },
                outcome,
            ),
    {
        let same: bool = match read {
            Ok(pairs) => PortMapping::from_pairs(pairs) == *self,
            Err(_) => false,
        };
        if same {
            Ok(document)
        } else {
            let text: String = "the document does not read back as the mapping".to_string();
            Err(PortMappingError::SerializationError(text))
        }
    }

    /// Whether the mapping is within the limits of a document.
    fn is_writable(&self) -> (fits: bool)
        ensures
            fits == writable(self@),
    {
        let ghost pairs = self.entries.deep_view();
        proof {
            use_type_invariant(self);
            lemma_pairs_map_len(pairs);
            lemma_pairs_map_chars(pairs);
        }
        if self.entries.len() > MAX_APPLICATIONS {
            return false;
        }
        let mut chars: usize = 0;
        let mut i: usize = 0;
        while i < self.entries.len()
            invariant
                i <= self.entries.len(),
                pairs == self.entries.deep_view(),
                chars == total_chars(pairs.take(i as int)),
                chars <= MAX_IDENTIFIER_CHARS,
                self@.dom().finite(),
                self@.dom().len() <= MAX_APPLICATIONS,
                identifier_chars(self@) == total_chars(pairs),
            decreases self.entries.len() - i,
        {
            let more: usize = self.entries[i].0.as_str().unicode_len();
            proof {
                assert(pairs.take(i + 1).drop_last() =~= pairs.take(i as int));
                assert(pairs.take(i + 1).last() == pairs[i as int]);
                lemma_total_chars_grows(pairs, i + 1);
            }
            if more > MAX_IDENTIFIER_CHARS - chars {
                return false;
            }
            chars = chars + more;
            i += 1;
        }
        proof {
            assert(pairs.take(i as int) =~= pairs);
        }
        true
    }

    /// Assigns to `app_id` the port that the host answered, over any port it
    /// had, and gives the port back with the document to persist.
    ///
    /// An answer below `LOWEST_PORT` counts as none. Without a port the
    /// mapping stays as it is. Where the document cannot be made, the
    /// mapping has changed all the same.
    pub fn assign_port(&mut self, app_id: String, picked: Option<u16>) -> (outcome: Result<
        (u16, String),
        PortMappingError,
    >)
        ensures
            assigned(old(self)@, app_id@, picked, final(self)@, outcome),
    {
        match picked {
            Some(port) => {
                if port < LOWEST_PORT {
                    return Err(PortMappingError::NoPortsAvailable);
                }
                self.put(app_id, port);
                match self.write_port_mapping() {
                    Ok(document) => Ok((port, document)),
                    Err(error) => Err(error),
                }
            },
            None => Err(PortMappingError::NoPortsAvailable),
        }
    }

    /// Asks the host for an unused port and assigns it to `app_id`, over any
    /// port it had. Gives the port back with the document to persist.
    ///
    /// Which port the host answers, and whether it answers one, is not known
    /// beforehand: the outcome is that of `assign_port` for some answer. A
    /// port that is given back is `LOWEST_PORT` or above, the mapping holds
    /// it for `app_id`, and the document reads back as the mapping.
    pub fn set_available_ui_port_for_app(&mut self, app_id: String) -> (outcome: Result<
        (u16, String),
        PortMappingError,
    >)
        ensures
            exists|picked: Option<u16>| #[trigger]
                assigned(old(self)@, app_id@, picked, final(self)@, outcome),
            outcome matches Ok(saved) ==> {
                &&& LOWEST_PORT <= saved.0
                &&& final(self)@ == old(self)@.insert(app_id@, saved.0)
                &&& lookup(final(self)@, app_id@) == Some(saved.0)
                &&& reads_back(final(self)@, saved.1@)
            },
    {
        let picked = pick_unused_port();
        self.assign_port(app_id, picked)
    }

    /// Forgets `app_id` and its port, if it had one, and gives back the
    /// document to persist.
    ///
    /// Where the document cannot be made, the mapping has changed all the
    /// same.
    pub fn remove_app_from_mapping(&mut self, app_id: String) -> (outcome: Result<
        String,
        PortMappingError,
    >)
        ensures
            removed(old(self)@, app_id@, final(self)@, outcome),
    {
        self.take_out(&app_id);
        self.write_port_mapping()
    }

    /// Takes the stored pairs out and leaves none behind.
    fn take_entries(&mut self) -> (entries: Vec<(String, u16)>)
        ensures
            entries == old(self).entries,
            distinct_keys(entries.deep_view()),
            final(self).entries@.len() == 0,
    {
        proof {
            use_type_invariant(&*self);
        }
        let mut entries: Vec<(String, u16)> = Vec::new();
        core::mem::swap(&mut self.entries, &mut entries);
        entries
    }

    /// Gives `app_id` the port `port`, in place of the port it had, if any.
    fn put(&mut self, app_id: String, port: u16)
        ensures
            final(self)@ == old(self)@.insert(app_id@, port),
    {
        let mut entries = self.take_entries();
        let ghost before = entries.deep_view();
        match position(&entries, &app_id) {
            Some(i) => {
                entries.set(i, (app_id, port));
                proof {
                    lemma_replace_port(before, i as int, port);
                    assert(entries.deep_view() =~= before.update(
                        i as int,
                        (before[i as int].0, port),
                    ));
                }
            },
            None => {
                let at: usize = place(&entries, &app_id);
                entries.insert(at, (app_id, port));
                proof {
                    lemma_insert_pair(before, at as int, app_id@, port);
                    assert(entries.deep_view() =~= before.insert(at as int, (app_id@, port)));
                }
            },
        }
        self.entries = entries;
    }

    /// Takes `app_id` and its port out of the mapping, if it is there.
    fn take_out(&mut self, app_id: &String)
        ensures
            final(self)@ == old(self)@.remove(app_id@),
    {
        let mut entries = self.take_entries();
        let ghost before = entries.deep_view();
        match position(&entries, app_id) {
            Some(i) => {
                entries.remove(i);
                proof {
                    lemma_remove_pair(before, i as int);
                    assert(entries.deep_view() =~= before.remove(i as int));
                }
            },
            None => {
                proof {
                    lemma_pairs_map_domain(before, app_id@);
                    assert(pairs_map(before).remove(app_id@) =~= pairs_map(before));
                }
            },
        }
        self.entries = entries;
    }
}

impl PartialEq for PortMapping {
    /// Two mappings are equal where they hold the same identifiers with the
    /// same ports.
    fn eq(&self, other: &PortMapping) -> (same: bool) {
        proof {
            use_type_invariant(self);
            use_type_invariant(other);
            lemma_pairs_map_len(self.entries.deep_view());
            lemma_pairs_map_len(other.entries.deep_view());
        }
        if self.entries.len() != other.entries.len() {
            return false;
        }
        let ghost mine = self.entries.deep_view();
        let mut i: usize = 0;
        while i < self.entries.len()
            invariant
                i <= self.entries.len(),
                mine == self.entries.deep_view(),
                distinct_keys(mine),
                distinct_keys(other.entries.deep_view()),
                self.entries.len() == other.entries.len(),
                forall|j: int|
                    0 <= j < i ==> lookup(other@, #[trigger] mine[j].0) == Some(mine[j].1),
            decreases self.entries.len() - i,
        {
            proof {
                lemma_pairs_map_value(mine, i as int);
            }
            let in_place: bool = other.entries[i].0 == self.entries[i].0 && other.entries[i].1
                == self.entries[i].1;
            if in_place {
                proof {
                    lemma_pairs_map_value(other.entries.deep_view(), i as int);
                }
            } else {
                match other.get_ui_port_for_app(&self.entries[i].0) {
                    Some(port) => {
                        if port != self.entries[i].1 {
                            return false;
                        }
                    },
                    None => {
                        return false;
                    },
                }
            }
            i += 1;
        }
        proof {
            lemma_included_pairs_same_map(mine, other.entries.deep_view());
        }
        true
    }
}

impl PartialEqSpecImpl for PortMapping {
    open spec fn obeys_eq_spec() -> bool {
        true
    }

    open spec fn eq_spec(&self, other: &PortMapping) -> bool {
        self@ == other@
    }
}

/// Where a pair for `app_id` goes to keep the pairs in the order of their
/// identifiers: before the first pair whose identifier does not come before
/// `app_id`.
fn place(entries: &Vec<(String, u16)>, app_id: &String) -> (at: usize)
    ensures
        at <= entries.len(),
        forall|j: int|
            0 <= j < at ==> precedes(
                encode_utf8(#[trigger] entries.deep_view()[j].0),
                encode_utf8(app_id@),
            ),
        at < entries.len() ==> !precedes(
            encode_utf8(entries.deep_view()[at as int].0),
            encode_utf8(app_id@),
        ),
{
    let new = app_id.as_str().as_bytes();
    let mut at: usize = 0;
    while at < entries.len()
        invariant
            at <= entries.len(),
            new@ == encode_utf8(app_id@),
            forall|j: int|
                0 <= j < at ==> precedes(
                    encode_utf8(#[trigger] entries.deep_view()[j].0),
                    encode_utf8(app_id@),
                ),
        decreases entries.len() - at,
    {
        if !bytes_precede(entries[at].0.as_str().as_bytes(), new) {
            return at;
        }
        at += 1;
    }
    at
}

/// Where `app_id` stands among the pairs, if it stands there.
fn position(entries: &Vec<(String, u16)>, app_id: &String) -> (at: Option<usize>)
    ensures
        match at {
            Some(i) => i < entries.len() && entries.deep_view()[i as int].0 == app_id@,
            None => !has_key(entries.deep_view(), app_id@),
        },
{
    let mut i: usize = 0;
    while i < entries.len()
        invariant
            i <= entries.len(),
            forall|j: int| 0 <= j < i ==> entries.deep_view()[j].0 != app_id@,
        decreases entries.len() - i,
    {
        if entries[i].0 == *app_id {
            return Some(i);
        }
        i += 1;
    }
    None
}

} // verus!
