use nexus_children::child::{ChildState, NexusChild};
use nexus_children::device::{DeviceHandle, DeviceRegistry};
use nexus_children::error::Error;
use nexus_children::label::NexusLabel;
use nexus_children::nvmf::{NexusNvmfError, NexusNvmfTarget, ShareOutcome};

fn child_with(device: Option<DeviceHandle>) -> NexusChild {
    NexusChild::new("aio:///disk".to_string(), "nexus0".to_string(), device)
}

#[test]
fn device_capacity_and_fit() {
    let device = DeviceHandle::new("d", 512, 131072, 4096);
    assert_eq!(device.block_len(), 512);
    assert_eq!(device.num_blocks(), 131072);
    assert_eq!(device.alignment(), 4096);
    assert_eq!(device.size_in_bytes(), 67108864);
    assert!(device.fits(67108864));
    assert!(!device.fits(67108865));
    assert!(device.fits(0));
}

#[test]
fn device_capacity_does_not_wrap() {
    let device = DeviceHandle::new("d", u32::MAX, u64::MAX, 0);
    assert_eq!(
        device.size_in_bytes(),
        79228162495817593515539431425u128
    );
    assert!(device.fits(u64::MAX));
    let empty = DeviceHandle::new("e", 0, u64::MAX, 0);
    assert_eq!(empty.size_in_bytes(), 0);
    assert!(empty.fits(0));
    assert!(!empty.fits(1));
}

#[test]
fn registry_finds_the_first_device_of_a_name() {
    let mut registry = DeviceRegistry::new();
    assert_eq!(registry.len(), 0);
    assert_eq!(registry.lookup("a"), None);
    registry.add(DeviceHandle::new("a", 512, 1, 0));
    registry.add(DeviceHandle::new("b", 512, 2, 0));
    registry.add(DeviceHandle::new("a", 512, 3, 0));
    assert_eq!(registry.len(), 3);
    assert_eq!(registry.lookup("a"), Some(DeviceHandle::new("a", 512, 1, 0)));
    assert_eq!(registry.lookup("b"), Some(DeviceHandle::new("b", 512, 2, 0)));
    assert_eq!(registry.lookup("c"), None);
    assert_eq!(registry.lookup(""), None);
}

#[test]
fn child_opens_from_init_and_from_closed() {
    let mut child = child_with(Some(DeviceHandle::new("d", 512, 8, 0)));
    assert_eq!(child.state, ChildState::Init);
    assert_eq!(child.open(4096), Ok("aio:///disk".to_string()));
    assert_eq!(child.state, ChildState::Open);
    child.close();
    assert_eq!(child.state, ChildState::Closed);
    assert_eq!(child.bdev, Some(DeviceHandle::new("d", 512, 8, 0)));
    assert_eq!(child.open(4096), Ok("aio:///disk".to_string()));
    assert_eq!(child.state, ChildState::Open);
}

#[test]
fn child_open_fails_without_changing_the_child() {
    let mut open = child_with(Some(DeviceHandle::new("d", 512, 8, 0)));
    assert!(open.open(0).is_ok());
    assert_eq!(open.open(0), Err(Error::AlreadyOpen));
    assert_eq!(open.state, ChildState::Open);

    let mut unresolved = child_with(None);
    assert_eq!(unresolved.open(0), Err(Error::DeviceGone));
    assert_eq!(unresolved.state, ChildState::Init);

    let mut small = child_with(Some(DeviceHandle::new("d", 512, 8, 0)));
    assert_eq!(small.open(4097), Err(Error::GeometryMismatch));
    assert_eq!(small.state, ChildState::Init);
    small.close();
    assert_eq!(small.open(4097), Err(Error::GeometryMismatch));
    assert_eq!(small.state, ChildState::Closed);

    let mut faulted = child_with(Some(DeviceHandle::new("d", 512, 8, 0)));
    faulted.fault();
    assert_eq!(
        faulted.open(0),
        Err(Error::Invalid(
            "child can be opened only when new or closed".to_string()
        ))
    );
    assert_eq!(faulted.state, ChildState::Faulted);
}

#[test]
fn child_close_is_idempotent() {
    let mut child = child_with(None);
    child.close();
    assert_eq!(child.state, ChildState::Closed);
    child.close();
    assert_eq!(child.state, ChildState::Closed);
    assert_eq!(child.name, "aio:///disk");
    assert_eq!(child.parent, "nexus0");
}

#[test]
fn child_destroy_needs_a_closed_child() {
    let mut child = child_with(Some(DeviceHandle::new("d", 512, 8, 0)));
    let refused = Error::Invalid("child must be closed before it is destroyed".to_string());
    assert_eq!(child.destroy(), Err(refused.clone()));
    assert!(child.open(0).is_ok());
    assert_eq!(child.destroy(), Err(refused));
    child.close();
    assert_eq!(child.destroy(), Ok("aio:///disk".to_string()));
}

#[test]
fn child_label_is_read_only_when_open() {
    let label = NexusLabel::new(1, 34, 100);
    let mut child = child_with(Some(DeviceHandle::new("d", 512, 8, 0)));
    assert_eq!(
        child.probe_label(&Ok(label)),
        Err(Error::Invalid("child is not open".to_string()))
    );
    assert!(child.open(0).is_ok());
    assert_eq!(child.probe_label(&Ok(label)), Ok(label));
    assert_eq!(
        child.probe_label(&Err(Error::Internal("bad crc".to_string()))),
        Err(Error::Internal("bad crc".to_string()))
    );
}

#[test]
fn labels_compare_by_all_fields() {
    let label = NexusLabel::new(1, 34, 100);
    assert!(label.same_as(&NexusLabel { guid: 1, lba_start: 34, lba_end: 100 }));
    assert!(!label.same_as(&NexusLabel::new(2, 34, 100)));
    assert!(!label.same_as(&NexusLabel::new(1, 35, 100)));
    assert!(!label.same_as(&NexusLabel::new(1, 34, 101)));
    assert_eq!(label, NexusLabel::new(1, 34, 100));
}

#[test]
fn error_constructors_and_clone() {
    assert_eq!(Error::invalid("x"), Error::Invalid("x".to_string()));
    assert_eq!(Error::internal("y"), Error::Internal("y".to_string()));
    let errors = vec![
        Error::NotFound,
        Error::Incomplete,
        Error::Invalid("a".to_string()),
        Error::Internal("b".to_string()),
        Error::GeometryMismatch,
        Error::AlreadyOpen,
        Error::DeviceGone,
        Error::DeviceCreate("c".to_string()),
        Error::OpenFailed("d".to_string()),
        Error::CloseFailed("e".to_string()),
        Error::DestroyFailed("f".to_string()),
        Error::LabelProbeFailed,
    ];
    for e in &errors {
        assert_eq!(&e.clone(), e);
    }
    assert_ne!(Error::Invalid("a".to_string()), Error::Internal("a".to_string()));
}

#[test]
fn nvmf_target_exists_only_when_shared() {
    let target = NexusNvmfTarget::create("uuid-1", ShareOutcome::Shared).unwrap();
    assert_eq!(target.uuid(), "uuid-1");
    assert_eq!(target.destroy(), "uuid-1".to_string());

    assert_eq!(
        NexusNvmfTarget::create("uuid-1", ShareOutcome::NoDevice),
        Err(NexusNvmfError::CreateTargetFailed {
            dev: "uuid-1".to_string(),
            err: "failed to find".to_string()
        })
    );
    assert_eq!(
        NexusNvmfTarget::create("uuid-1", ShareOutcome::Failed("address in use".to_string())),
        Err(NexusNvmfError::CreateTargetFailed {
            dev: "uuid-1".to_string(),
            err: "address in use".to_string()
        })
    );
}

#[test]
fn nvmf_target_as_uri() {
    let target = NexusNvmfTarget::create("uuid-1", ShareOutcome::Shared).unwrap();
    assert_eq!(
        target.as_uri(Some("nvmf://127.0.0.1:4420/nqn.2019-05.io.openebs:uuid-1".to_string())),
        "nvmf://127.0.0.1:4420/nqn.2019-05.io.openebs:uuid-1"
    );
    assert_eq!(target.as_uri(None), "HAHA NO");
}

#[test]
fn nvmf_error_messages() {
    assert_eq!(
        NexusNvmfError::BdevNotFound { dev: "disk7".to_string() }.message(),
        "Bdev not found disk7"
    );
    assert_eq!(
        NexusNvmfError::CreateTargetFailed {
            dev: "uuid-1".to_string(),
            err: "failed to find".to_string()
        }
        .message(),
        "Failed to create iscsi target for bdev uuid uuid-1, error failed to find"
    );
}
