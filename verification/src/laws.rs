//! What holds of the operations taken together.

use vstd::prelude::*;
use crate::error::{FileRead, PortMappingError};
use crate::mapping::{assigned, encoded, loaded, removed, PortMapping, LOWEST_PORT};
use crate::model::lookup;

verus! {

/// A document that writing a mapping gave loads as that mapping: no pair is
/// lost, none is added, and no port is altered.
pub proof fn law_written_document_reads_back(
    mapping: Map<Seq<char>, u16>,
    written: Result<String, PortMappingError>,
    outcome: Result<PortMapping, PortMappingError>,
)
    requires
        encoded(mapping, written),
        written matches Ok(document) && loaded(FileRead::Contents(document), outcome),
    ensures
        outcome matches Ok(again) && again@ == mapping,
{
}

/// The document that an assignment gave loads as the mapping after the
/// assignment, with the assigned port for the identifier.
pub proof fn law_assigned_port_survives_reload(
    before: Map<Seq<char>, u16>,
    app_id: Seq<char>,
    picked: Option<u16>,
    after: Map<Seq<char>, u16>,
    assignment: Result<(u16, String), PortMappingError>,
    outcome: Result<PortMapping, PortMappingError>,
)
    requires
        assigned(before, app_id, picked, after, assignment),
        assignment matches Ok(saved) && loaded(FileRead::Contents(saved.1), outcome),
    ensures
        outcome matches Ok(again) && again@ == after && lookup(again@, app_id) == Some(
            assignment->Ok_0.0,
        ),
{
}

/// The document that a removal gave loads as the mapping after the removal,
/// without the identifier.
pub proof fn law_removal_survives_reload(
    before: Map<Seq<char>, u16>,
    app_id: Seq<char>,
    after: Map<Seq<char>, u16>,
    removal: Result<String, PortMappingError>,
    outcome: Result<PortMapping, PortMappingError>,
)
    requires
        removed(before, app_id, after, removal),
        removal matches Ok(document) && loaded(FileRead::Contents(document), outcome),
    ensures
        outcome matches Ok(again) && again@ == after && lookup(again@, app_id) is None,
{
}

/// Starting with no mapping file, assigning to one application, then to
/// another, then removing the first, and loading the last document gives the
/// mapping that holds the second application with its port and nothing else.
pub proof fn law_first_run_to_reload(
    first_run: Result<PortMapping, PortMappingError>,
    one: Seq<char>,
    one_picked: Option<u16>,
    with_one: Map<Seq<char>, u16>,
    one_assigned: Result<(u16, String), PortMappingError>,
    other: Seq<char>,
    other_picked: Option<u16>,
    with_both: Map<Seq<char>, u16>,
    other_assigned: Result<(u16, String), PortMappingError>,
    without_one: Map<Seq<char>, u16>,
    removal: Result<String, PortMappingError>,
    outcome: Result<PortMapping, PortMappingError>,
)
    requires
        one != other,
        loaded(FileRead::NotFound, first_run),
        first_run matches Ok(start) && assigned(start@, one, one_picked, with_one, one_assigned),
        one_assigned is Ok,
        assigned(with_one, other, other_picked, with_both, other_assigned),
        other_assigned is Ok,
        removed(with_both, one, without_one, removal),
        removal matches Ok(document) && loaded(FileRead::Contents(document), outcome),
    ensures
        LOWEST_PORT <= one_assigned->Ok_0.0,
        LOWEST_PORT <= other_assigned->Ok_0.0,
        lookup(with_both, one) == Some(one_assigned->Ok_0.0),
        lookup(with_both, other) == Some(other_assigned->Ok_0.0),
        outcome matches Ok(again) && again@ == Map::<Seq<char>, u16>::empty().insert(
            other,
            other_assigned->Ok_0.0,
        ),
{
    let port = other_assigned->Ok_0.0;
    assert(without_one =~= Map::<Seq<char>, u16>::empty().insert(other, port));
}

/// After an assignment that gave a port, the port is `LOWEST_PORT` or above
/// and the mapping holds it for the identifier.
pub proof fn law_assign_then_get(
    before: Map<Seq<char>, u16>,
    app_id: Seq<char>,
    picked: Option<u16>,
    after: Map<Seq<char>, u16>,
    outcome: Result<(u16, String), PortMappingError>,
)
    requires
        assigned(before, app_id, picked, after, outcome),
    ensures
        outcome matches Ok(saved) ==> LOWEST_PORT <= saved.0 && lookup(after, app_id) == Some(
            saved.0,
        ),
{
}

/// An assignment leaves every other identifier as it was.
pub proof fn law_assign_keeps_others(
    before: Map<Seq<char>, u16>,
    app_id: Seq<char>,
    picked: Option<u16>,
    after: Map<Seq<char>, u16>,
    outcome: Result<(u16, String), PortMappingError>,
    other: Seq<char>,
)
    requires
        assigned(before, app_id, picked, after, outcome),
        other != app_id,
    ensures
        lookup(after, other) == lookup(before, other),
{
}

/// Of two assignments to one identifier in a row only the second counts: the
/// mapping is what the second alone would have made of the first mapping.
pub proof fn law_reassignment_overwrites(
    before: Map<Seq<char>, u16>,
    app_id: Seq<char>,
    first_picked: Option<u16>,
    between: Map<Seq<char>, u16>,
    first: Result<(u16, String), PortMappingError>,
    second_picked: Option<u16>,
    after: Map<Seq<char>, u16>,
    second: Result<(u16, String), PortMappingError>,
)
    requires
        assigned(before, app_id, first_picked, between, first),
        assigned(between, app_id, second_picked, after, second),
    ensures
        second matches Ok(saved) ==> lookup(after, app_id) == Some(saved.0) && after
            == before.insert(app_id, saved.0),
{
    if second is Ok {
        let port = second->Ok_0.0;
        assert(between.insert(app_id, port) =~= before.insert(app_id, port));
    }
}

/// Removing an identifier that the mapping does not hold leaves the mapping
/// as it was, and the outcome is what writing that mapping gives.
pub proof fn law_remove_absent_changes_nothing(
    before: Map<Seq<char>, u16>,
    app_id: Seq<char>,
    after: Map<Seq<char>, u16>,
    outcome: Result<String, PortMappingError>,
)
    requires
        !before.contains_key(app_id),
        removed(before, app_id, after, outcome),
    ensures
        after == before,
        encoded(before, outcome),
{
    assert(before.remove(app_id) =~= before);
}

/// Removing an identifier a second time changes nothing more, and fares as
/// the first time: it gives the same document, or fails as the first did.
pub proof fn law_remove_is_idempotent(
    before: Map<Seq<char>, u16>,
    app_id: Seq<char>,
    between: Map<Seq<char>, u16>,
    first: Result<String, PortMappingError>,
    after: Map<Seq<char>, u16>,
    second: Result<String, PortMappingError>,
)
    requires
        removed(before, app_id, between, first),
        removed(between, app_id, after, second),
    ensures
        after == between,
        lookup(after, app_id) is None,
        first is Ok <==> second is Ok,
        first matches Ok(one) ==> second matches Ok(other) && other@ == one@,
{
    assert(between.remove(app_id) =~= between);
}

/// After a removal the mapping holds nothing for the identifier, and every
/// other identifier is as it was.
pub proof fn law_remove_then_get(
    before: Map<Seq<char>, u16>,
    app_id: Seq<char>,
    after: Map<Seq<char>, u16>,
    outcome: Result<String, PortMappingError>,
    other: Seq<char>,
)
    requires
        removed(before, app_id, after, outcome),
        other != app_id,
    ensures
        lookup(after, app_id) is None,
        lookup(after, other) == lookup(before, other),
{
}

} // verus!
