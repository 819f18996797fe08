//! Physical-device selection and the logical-device connection plan:
//! ranking candidates, filtering them by the required capability set, and
//! deriving the queue configuration of the device connection.

use vstd::prelude::*;

use crate::capability::CapabilitySet;
use crate::errors::{DeviceCreationError, NoSuitableDeviceError};
use crate::init_info::DeviceInitInfo;

verus! {

/// The hardware class a physical device reports.
#[derive(Clone, Copy, Debug, PartialEq, Eq, Structural)]
pub enum DeviceType {
    DiscreteGpu,
    IntegratedGpu,
    Other,
}

/// An immutable snapshot of one enumerated physical device.
#[derive(Clone, Copy, Debug, PartialEq, Eq, Structural)]
pub struct PhysicalDeviceCandidate {
    /// Position of the device in the instance's enumeration order.
    pub enumeration_index: u32,
    pub device_type: DeviceType,
    pub supported_extensions: CapabilitySet,
    pub supported_features: CapabilitySet,
    /// Total bytes of device-local memory, summed over the local heaps.
    pub local_memory: u64,
}

/// One queue family of a device, tagged with the operation classes it
/// supports.
#[derive(Clone, Copy, Debug, PartialEq, Eq, Structural)]
pub struct QueueFamily {
    pub graphics: bool,
    pub compute: bool,
    pub transfer: bool,
}

/// One memory heap of a device.
#[derive(Clone, Copy, Debug, PartialEq, Eq, Structural)]
pub struct MemoryHeap {
    pub size: u64,
    pub device_local: bool,
}

/// A request for one queue of the given family.
#[derive(Clone, Copy, Debug, PartialEq, Eq, Structural)]
pub struct QueueCreateInfo {
    pub queue_family_index: u32,
}

/// A live queue handle of an opened device connection.
#[derive(Clone, Copy, Debug, PartialEq, Eq, Structural)]
pub struct Queue {
    pub queue_family_index: u32,
    pub index_within_family: u32,
}

/// An opened logical-device connection: the capability sets that were
/// enabled on it. The connection must outlive the queues returned with it.
#[derive(Clone, Copy, Debug, PartialEq, Eq, Structural)]
pub struct LogicalDeviceHandle {
    pub enabled_extensions: CapabilitySet,
    pub enabled_features: CapabilitySet,
}

/// Whether a candidate is a discrete GPU.
pub open spec fn is_discrete(d: PhysicalDeviceCandidate) -> bool {
    d.device_type is DiscreteGpu
}

/// The discreteness predicate, as a value usable with `Seq::filter`.
pub open spec fn discrete_pred() -> spec_fn(PhysicalDeviceCandidate) -> bool {
    |d: PhysicalDeviceCandidate| is_discrete(d)
}

/// The complement of `discrete_pred`, as a value usable with `Seq::filter`.
pub open spec fn non_discrete_pred() -> spec_fn(PhysicalDeviceCandidate) -> bool {
    |d: PhysicalDeviceCandidate| !is_discrete(d)
}

/// A candidate is suitable when its supported extensions and its supported
/// features each contain the required set.
pub open spec fn spec_device_suitable(d: PhysicalDeviceCandidate, info: DeviceInitInfo) -> bool {
    info.required_extensions.subset_of(d.supported_extensions)
        && info.required_features.subset_of(d.supported_features)
}

/// The suitability predicate, as a value usable with `Seq::filter`.
pub open spec fn suitable_pred(info: DeviceInitInfo) -> spec_fn(PhysicalDeviceCandidate) -> bool {
    |d: PhysicalDeviceCandidate| spec_device_suitable(d, info)
}

/// Appending one element to a sequence extends its filtered image by that
/// element exactly when the element satisfies the predicate.
proof fn lemma_filter_push<A>(s: Seq<A>, x: A, pred: spec_fn(A) -> bool)
    ensures
        s.push(x).filter(pred) == if pred(x) {
            s.filter(pred).push(x)
        } else {
            s.filter(pred)
        },
{
    reveal(Seq::filter);
    assert(s.push(x).drop_last() =~= s);
}

/// Ranks the enumerated devices: discrete GPUs first, in enumeration order,
/// then all other devices, also in enumeration order (a stable partition).
pub fn sort_physical_devices_by_device_type(
    physical_devices: Vec<PhysicalDeviceCandidate>,
) -> (r: Vec<PhysicalDeviceCandidate>)
    ensures
        r@ == physical_devices@.filter(discrete_pred()) + physical_devices@.filter(
            non_discrete_pred(),
        ),
{
    let mut priority_devices: Vec<PhysicalDeviceCandidate> = Vec::new();
    let mut other_devices: Vec<PhysicalDeviceCandidate> = Vec::new();
    let n = physical_devices.len();
    for i in 0..n
        invariant
            n == physical_devices@.len(),
            priority_devices@ == physical_devices@.subrange(0, i as int).filter(discrete_pred()),
            other_devices@ == physical_devices@.subrange(0, i as int).filter(non_discrete_pred()),
    {
        let device = physical_devices[i];
        proof {
            assert(physical_devices@.subrange(0, i + 1) =~= physical_devices@.subrange(
                0,
                i as int,
            ).push(device));
            lemma_filter_push(physical_devices@.subrange(0, i as int), device, discrete_pred());
            lemma_filter_push(
                physical_devices@.subrange(0, i as int),
                device,
                non_discrete_pred(),
            );
        }
        match device.device_type {
            DeviceType::DiscreteGpu => priority_devices.push(device),
            DeviceType::IntegratedGpu => other_devices.push(device),
            DeviceType::Other => other_devices.push(device),
        }
    }
    proof {
        assert(physical_devices@.subrange(0, n as int) =~= physical_devices@);
    }
    priority_devices.append(&mut other_devices);
    priority_devices
}

/// The ranking is a stable partition: every discrete device stands before
/// every non-discrete device, and within each group the enumeration order
/// is preserved (the groups are exactly the two filtered subsequences of
/// the input).
pub proof fn lemma_ranking_is_stable_partition(
    devices: Seq<PhysicalDeviceCandidate>,
    r: Seq<PhysicalDeviceCandidate>,
)
    requires
        r == devices.filter(discrete_pred()) + devices.filter(non_discrete_pred()),
    ensures
        r.len() == devices.filter(discrete_pred()).len() + devices.filter(
            non_discrete_pred(),
        ).len(),
        forall|i: int|
            0 <= i < devices.filter(discrete_pred()).len() ==> is_discrete(#[trigger] r[i]),
        forall|i: int|
            devices.filter(discrete_pred()).len() <= i < r.len() ==> !is_discrete(
                #[trigger] r[i],
            ),
{
    let d = devices.filter(discrete_pred());
    let nd = devices.filter(non_discrete_pred());
    assert forall|i: int| 0 <= i < d.len() implies is_discrete(r[i]) by {
        devices.lemma_filter_pred(discrete_pred(), i);
    }
    assert forall|i: int| d.len() <= i < r.len() implies !is_discrete(r[i]) by {
        devices.lemma_filter_pred(non_discrete_pred(), i - d.len());
        assert(r[i] == nd[i - d.len()]);
    }
}

/// Retains the candidates whose supported extensions and features both
/// satisfy the required sets of `init_info`, preserving order.
pub fn find_correct_physical_devices(
    physical_devices: &Vec<PhysicalDeviceCandidate>,
    init_info: &DeviceInitInfo,
) -> (r: Vec<PhysicalDeviceCandidate>)
    ensures
        r@ == physical_devices@.filter(suitable_pred(*init_info)),
{
    let mut correct_devices: Vec<PhysicalDeviceCandidate> = Vec::new();
    let n = physical_devices.len();
    for i in 0..n
        invariant
            n == physical_devices@.len(),
            correct_devices@ == physical_devices@.subrange(0, i as int).filter(
                suitable_pred(*init_info),
            ),
    {
        let device = physical_devices[i];
        proof {
            assert(physical_devices@.subrange(0, i + 1) =~= physical_devices@.subrange(
                0,
                i as int,
            ).push(device));
            lemma_filter_push(
                physical_devices@.subrange(0, i as int),
                device,
                suitable_pred(*init_info),
            );
        }
        let extensions_ok = device.supported_extensions.contains(&init_info.required_extensions);
        let features_ok = device.supported_features.contains(&init_info.required_features);
        if extensions_ok && features_ok {
            correct_devices.push(device);
        }
    }
    proof {
        assert(physical_devices@.subrange(0, n as int) =~= physical_devices@);
    }
    correct_devices
}

/// The ranked-and-filtered device list the selector returns on success.
pub open spec fn spec_right_devices(
    devices: Seq<PhysicalDeviceCandidate>,
    info: DeviceInitInfo,
) -> Seq<PhysicalDeviceCandidate> {
    (devices.filter(discrete_pred()) + devices.filter(non_discrete_pred())).filter(
        suitable_pred(info),
    )
}

/// Ranks the enumerated devices (discrete first, stable) and keeps those
/// that satisfy the required capability sets. Fails exactly when no device
/// is suitable.
pub fn get_right_devices(
    physical_devices: Vec<PhysicalDeviceCandidate>,
    init_info: &DeviceInitInfo,
) -> (r: Result<Vec<PhysicalDeviceCandidate>, NoSuitableDeviceError>)
    ensures
        r matches Ok(v) ==> v@ == spec_right_devices(physical_devices@, *init_info) && v@.len()
            > 0,
        r is Err <==> spec_right_devices(physical_devices@, *init_info).len() == 0,
{
    let priority_devices = sort_physical_devices_by_device_type(physical_devices);
    let correct_devices = find_correct_physical_devices(&priority_devices, init_info);
    if correct_devices.len() == 0 {
        Err(NoSuitableDeviceError)
    } else {
        Ok(correct_devices)
    }
}

/// The device-local memory reported by a heap list: the sum of the sizes of
/// its device-local heaps.
pub open spec fn spec_local_memory(heaps: Seq<MemoryHeap>) -> int
    decreases heaps.len(),
{
    if heaps.len() == 0 {
        0
    } else {
        spec_local_memory(heaps.drop_last()) + if heaps.last().device_local {
            heaps.last().size as int
        } else {
            0
        }
    }
}

/// The local-memory sum over a prefix never exceeds the sum over the whole
/// list.
proof fn lemma_local_memory_prefix(heaps: Seq<MemoryHeap>, i: int)
    requires
        0 <= i <= heaps.len(),
    ensures
        spec_local_memory(heaps.subrange(0, i)) <= spec_local_memory(heaps),
    decreases heaps.len() - i,
{
    if i == heaps.len() {
        assert(heaps.subrange(0, i) =~= heaps);
    } else {
        assert(heaps.subrange(0, i + 1).drop_last() =~= heaps.subrange(0, i));
        assert(spec_local_memory(heaps.subrange(0, i)) <= spec_local_memory(
            heaps.subrange(0, i + 1),
        ));
        lemma_local_memory_prefix(heaps, i + 1);
    }
}

/// Sums the sizes of the device-local heaps: the candidate's local-memory
/// figure.
pub fn get_physical_device_local_memory(memory_heaps: &Vec<MemoryHeap>) -> (r: u64)
    requires
        spec_local_memory(memory_heaps@) <= u64::MAX,
    ensures
        r == spec_local_memory(memory_heaps@),
{
    let mut local_memory: u64 = 0;
    let n = memory_heaps.len();
    for i in 0..n
        invariant
            n == memory_heaps@.len(),
            local_memory == spec_local_memory(memory_heaps@.subrange(0, i as int)),
            spec_local_memory(memory_heaps@) <= u64::MAX,
    {
        proof {
            assert(memory_heaps@.subrange(0, i + 1).drop_last() =~= memory_heaps@.subrange(
                0,
                i as int,
            ));
            lemma_local_memory_prefix(memory_heaps@, i + 1);
        }
        let heap = memory_heaps[i];
        if heap.device_local {
            local_memory = local_memory + heap.size;
        }
    }
    proof {
        assert(memory_heaps@.subrange(0, n as int) =~= memory_heaps@);
    }
    local_memory
}

/// A queue family qualifies when it supports both compute and transfer
/// operations.
pub open spec fn family_qualifies(f: QueueFamily) -> bool {
    f.compute && f.transfer
}

/// The queue requests derived from a family list: one request per
/// qualifying family, in family order.
pub open spec fn spec_queue_create_infos(families: Seq<QueueFamily>) -> Seq<QueueCreateInfo>
    decreases families.len(),
{
    if families.len() == 0 {
        Seq::empty()
    } else {
        spec_queue_create_infos(families.drop_last()) + if family_qualifies(families.last()) {
            seq![QueueCreateInfo { queue_family_index: (families.len() - 1) as u32 }]
        } else {
            Seq::empty()
        }
    }
}

/// No queue request is derived exactly when no family qualifies.
pub proof fn lemma_no_qualifying_family(families: Seq<QueueFamily>)
    ensures
        spec_queue_create_infos(families).len() == 0 <==> forall|i: int|
            0 <= i < families.len() ==> !family_qualifies(#[trigger] families[i]),
    decreases families.len(),
{
    if families.len() > 0 {
        lemma_no_qualifying_family(families.drop_last());
        assert(families.last() == families[families.len() - 1]);
        assert(forall|i: int|
            0 <= i < families.len() - 1 ==> families.drop_last()[i] == #[trigger] families[i]);
    }
}

/// Derives the queue requests of the connection: one queue for each family
/// that supports both compute and transfer. Fails exactly when no family
/// does.
pub fn get_device_queue_create_infos(queue_families: &Vec<QueueFamily>) -> (r: Result<
    Vec<QueueCreateInfo>,
    DeviceCreationError,
>)
    requires
        queue_families@.len() <= u32::MAX,
    ensures
        r matches Ok(v) ==> v@ == spec_queue_create_infos(queue_families@) && v@.len() > 0,
        r is Err <==> forall|i: int|
            0 <= i < queue_families@.len() ==> !family_qualifies(#[trigger] queue_families@[i]),
        r matches Err(e) ==> e == DeviceCreationError::NoQueueFamilyAvailable,
{
    let mut queue_create_infos: Vec<QueueCreateInfo> = Vec::new();
    let n = queue_families.len();
    for i in 0..n
        invariant
            n == queue_families@.len(),
            n <= u32::MAX,
            queue_create_infos@ == spec_queue_create_infos(queue_families@.subrange(0, i as int)),
    {
        proof {
            assert(queue_families@.subrange(0, i + 1).drop_last() =~= queue_families@.subrange(
                0,
                i as int,
            ));
        }
        let family = queue_families[i];
        if family.compute && family.transfer {
            queue_create_infos.push(QueueCreateInfo { queue_family_index: i as u32 });
        }
        proof {
            assert(queue_families@.subrange(0, i + 1).last() == queue_families@[i as int]);
        }
    }
    proof {
        assert(queue_families@.subrange(0, n as int) =~= queue_families@);
        lemma_no_qualifying_family(queue_families@);
    }
    if queue_create_infos.len() == 0 {
        Err(DeviceCreationError::NoQueueFamilyAvailable)
    } else {
        Ok(queue_create_infos)
    }
}

/// The queue handles an opened connection returns: one queue at index 0
/// within each requested family.
pub open spec fn spec_queues_of(infos: Seq<QueueCreateInfo>) -> Seq<Queue> {
    infos.map_values(
        |ci: QueueCreateInfo|
            Queue { queue_family_index: ci.queue_family_index, index_within_family: 0 },
    )
}

/// Plans and opens the logical-device connection for a chosen candidate:
/// negotiates extensions and features against the required and preferred
/// sets, derives the queue requests, and returns the connection handle with
/// one live queue per qualifying family.
pub fn create_device_connection(
    physical_device: &PhysicalDeviceCandidate,
    queue_families: &Vec<QueueFamily>,
    init_info: &DeviceInitInfo,
) -> (r: Result<(LogicalDeviceHandle, Vec<Queue>), DeviceCreationError>)
    requires
        queue_families@.len() <= u32::MAX,
    ensures
        r is Ok <==> spec_device_suitable(*physical_device, *init_info)
            && spec_queue_create_infos(queue_families@).len() > 0,
        r matches Ok((handle, queues)) ==> {
            &&& Ok::<CapabilitySet, crate::capability::CapabilityError>(handle.enabled_extensions)
                == crate::capability::spec_confirm(
                init_info.required_extensions,
                init_info.preferred_extensions,
                physical_device.supported_extensions,
            )
            &&& Ok::<CapabilitySet, crate::capability::CapabilityError>(handle.enabled_features)
                == crate::capability::spec_confirm(
                init_info.required_features,
                init_info.preferred_features,
                physical_device.supported_features,
            )
            &&& queues@ == spec_queues_of(spec_queue_create_infos(queue_families@))
        },
        r matches Err(e) ==> {
            &&& e == DeviceCreationError::ExtensionNotPresent
                <==> !init_info.required_extensions.subset_of(
                physical_device.supported_extensions,
            )
            &&& e == DeviceCreationError::FeatureNotPresent
                <==> init_info.required_extensions.subset_of(physical_device.supported_extensions)
                && !init_info.required_features.subset_of(physical_device.supported_features)
        },
{
    let enabled_extensions = match init_info.confirm_extensions(
        &physical_device.supported_extensions,
    ) {
        Ok(c) => c,
        Err(e) => { return Err(e) },
    };
    let enabled_features = match init_info.confirm_features(&physical_device.supported_features) {
        Ok(c) => c,
        Err(e) => { return Err(e) },
    };
    let queue_create_infos = match get_device_queue_create_infos(queue_families) {
        Ok(v) => v,
        Err(e) => {
            proof {
                lemma_no_qualifying_family(queue_families@);
            }
            return Err(e);
        },
    };
    let mut queues: Vec<Queue> = Vec::new();
    let n = queue_create_infos.len();
    for i in 0..n
        invariant
            n == queue_create_infos@.len(),
            queues@ == spec_queues_of(queue_create_infos@.subrange(0, i as int)),
    {
        let info = queue_create_infos[i];
        queues.push(Queue { queue_family_index: info.queue_family_index, index_within_family: 0 });
        proof {
            assert(spec_queues_of(queue_create_infos@.subrange(0, i + 1)) =~= spec_queues_of(
                queue_create_infos@.subrange(0, i as int),
            ).push(Queue { queue_family_index: info.queue_family_index, index_within_family: 0 }));
        }
    }
    proof {
        assert(queue_create_infos@.subrange(0, n as int) =~= queue_create_infos@);
    }
    let handle = LogicalDeviceHandle { enabled_extensions, enabled_features };
    Ok((handle, queues))
}

} // verus!
