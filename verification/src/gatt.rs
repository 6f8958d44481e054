//! The strain gauge's service: its identifiers, its control commands, and
//! where its two characteristics stand among the services of a device.

use vstd::prelude::*;

verus! {

/// The 128-bit identifier of the gauge's service.
pub const SERVICE_UUID: u128 = 0x7e4e1701_1ea6_40c9_9dcc_13d34ffead57;

/// The identifier of the control characteristic, which takes commands.
pub const CONTROL_UUID: u128 = 0x7e4e1703_1ea6_40c9_9dcc_13d34ffead57;

/// The identifier of the data characteristic, which sends notifications.
pub const DATA_UUID: u128 = 0x7e4e1702_1ea6_40c9_9dcc_13d34ffead57;

/// Control opcode: start measuring weight.
pub const START_WEIGHT_MEASUREMENT: u8 = 0x65;

/// Control opcode: stop measuring weight.
pub const END_WEIGHT_MEASUREMENT: u8 = 0x66;

/// One service of a device: its identifier and those of its characteristics,
/// in the order in which the device lists them.
#[derive(Debug)]
pub struct ServiceRecord {
    pub uuid: u128,
    pub characteristics: Vec<u128>,
}

/// Where the gauge's characteristics stand: the index of its service in the
/// list of services, and the indices of the two characteristics in that
/// service's list.
#[derive(Clone, Copy, Debug, PartialEq, Eq, Structural)]
pub struct Endpoints {
    pub service: usize,
    pub control: usize,
    pub data: usize,
}

/// What can be missing on a device.
#[derive(Clone, Copy, Debug, PartialEq, Eq, Structural)]
pub enum Missing {
    Service,
    ControlCharacteristic,
    DataCharacteristic,
}

/// The identifiers of a list of services, in order.
pub open spec fn service_uuids(services: Seq<ServiceRecord>) -> Seq<u128> {
    Seq::new(services.len(), |i: int| services[i].uuid)
}

/// The gauge's endpoints on a device. The first service with the gauge's
/// identifier counts, and in it the first characteristic with each of the two
/// identifiers.
pub open spec fn resolve_spec(services: Seq<ServiceRecord>) -> Result<Endpoints, Missing> {
    match service_uuids(services).index_of_first(SERVICE_UUID) {
        None => Err(Missing::Service),
        Some(s) => {
            let listed = services[s].characteristics@;
            match listed.index_of_first(CONTROL_UUID) {
                None => Err(Missing::ControlCharacteristic),
                Some(c) => match listed.index_of_first(DATA_UUID) {
                    None => Err(Missing::DataCharacteristic),
                    Some(d) => Ok(
                        Endpoints { service: s as usize, control: c as usize, data: d as usize },
                    ),
                },
            }
        },
    }
}

/// The payload that carries a control opcode: the opcode and a zero byte.
pub open spec fn command_spec(opcode: u8) -> Seq<u8> {
    seq![opcode, 0u8]
}

/// The two-byte payload to write to the control characteristic for an opcode.
pub fn control_command(opcode: u8) -> (payload: [u8; 2])
    ensures
        payload@ == command_spec(opcode),
{
    let payload: [u8; 2] = [opcode, 0];
    assert(payload@ =~= command_spec(opcode));
    payload
}

/// The first place of an identifier in a list, if it is there.
pub fn position(ids: &Vec<u128>, id: u128) -> (found: Option<usize>)
    ensures
        found matches Some(i) ==> i < ids@.len() && ids@.index_of_first(id) == Some(i as int),
        found is None ==> ids@.index_of_first(id) is None,
{
    let mut i: usize = 0;
    while i < ids.len()
        invariant
            i <= ids@.len(),
            forall|j: int| 0 <= j < i ==> ids@[j] != id,
        decreases ids@.len() - i,
    {
        if ids[i] == id {
            proof {
                assert(ids@[i as int] == id);
                ids@.index_of_first_ensures(id);
            }
            return Some(i);
        }
        i = i + 1;
    }
    proof {
        ids@.index_of_first_ensures(id);
    }
    None
}

fn service_position(services: &Vec<ServiceRecord>) -> (found: Option<usize>)
    ensures
        found matches Some(i) ==> i < services@.len() && service_uuids(
            services@,
        ).index_of_first(SERVICE_UUID) == Some(i as int),
        found is None ==> service_uuids(services@).index_of_first(SERVICE_UUID) is None,
{
    let ghost uuids = service_uuids(services@);
    let mut i: usize = 0;
    while i < services.len()
        invariant
            i <= services@.len(),
            uuids == service_uuids(services@),
            forall|j: int| 0 <= j < i ==> uuids[j] != SERVICE_UUID,
        decreases services@.len() - i,
    {
        if services[i].uuid == SERVICE_UUID {
            proof {
                assert(uuids[i as int] == SERVICE_UUID);
                uuids.index_of_first_ensures(SERVICE_UUID);
            }
            return Some(i);
        }
        i = i + 1;
    }
    proof {
        uuids.index_of_first_ensures(SERVICE_UUID);
    }
    None
}

/// Finds the gauge's two characteristics among the services of a device, or
/// says what is missing.
pub fn resolve(services: &Vec<ServiceRecord>) -> (found: Result<Endpoints, Missing>)
    ensures
        found == resolve_spec(services@),
{
    match service_position(services) {
        None => Err(Missing::Service),
        Some(service) => {
            let listed = &services[service].characteristics;
            match position(listed, CONTROL_UUID) {
                None => Err(Missing::ControlCharacteristic),
                Some(control) => match position(listed, DATA_UUID) {
                    None => Err(Missing::DataCharacteristic),
                    Some(data) => Ok(Endpoints { service, control, data }),
                },
            }
        },
    }
}

/// What `resolve_spec` finds is there, and nothing before it is: the service
/// is the first with the gauge's identifier, and each characteristic the
/// first with its identifier in that service.
pub proof fn lemma_resolved_first(services: Seq<ServiceRecord>)
    requires
        services.len() <= usize::MAX,
    ensures
        match resolve_spec(services) {
            Ok(found) => {
                &&& found.service < services.len()
                &&& services[found.service as int].uuid == SERVICE_UUID
                &&& forall|j: int| 0 <= j < found.service ==> services[j].uuid != SERVICE_UUID
                &&& found.control < services[found.service as int].characteristics@.len()
                &&& services[found.service as int].characteristics@[found.control as int]
                    == CONTROL_UUID
                &&& forall|j: int|
                    0 <= j < found.control ==> services[found.service as int].characteristics@[j]
                        != CONTROL_UUID
                &&& found.data < services[found.service as int].characteristics@.len()
                &&& services[found.service as int].characteristics@[found.data as int] == DATA_UUID
                &&& forall|j: int|
                    0 <= j < found.data ==> services[found.service as int].characteristics@[j]
                        != DATA_UUID
            },
            Err(Missing::Service) => forall|j: int|
                0 <= j < services.len() ==> services[j].uuid != SERVICE_UUID,
            Err(_) => exists|s: int|
                0 <= s < services.len() && #[trigger] services[s].uuid == SERVICE_UUID,
        },
{
    let uuids = service_uuids(services);
    uuids.index_of_first_ensures(SERVICE_UUID);
    match uuids.index_of_first(SERVICE_UUID) {
        None => {
            assert forall|j: int| 0 <= j < services.len() implies services[j].uuid
                != SERVICE_UUID by {
                assert(uuids[j] == services[j].uuid);
            }
        },
        Some(s) => {
            let listed = services[s].characteristics@;
            listed.index_of_first_ensures(CONTROL_UUID);
            listed.index_of_first_ensures(DATA_UUID);
            assert(uuids[s] == services[s].uuid);
            assert(listed.len() == services[s].characteristics.len());
            assert forall|j: int| 0 <= j < s implies services[j].uuid != SERVICE_UUID by {
                assert(uuids[j] == services[j].uuid);
            }
        },
    }
}

} // verus!
