use nexus_children::channel::DREvent;
use nexus_children::child::{ChildState, NexusChild};
use nexus_children::device::{DeviceHandle, DeviceRegistry};
use nexus_children::error::Error;
use nexus_children::label::NexusLabel;
use nexus_children::model::NexusState;
use nexus_children::nexus::{Addition, Nexus};

const MIB: u64 = 1024 * 1024;

fn registry_of(devices: Vec<DeviceHandle>) -> DeviceRegistry {
    let mut registry = DeviceRegistry::new();
    for device in devices {
        registry.add(device);
    }
    registry
}

fn names(uris: &[&str]) -> Vec<String> {
    uris.iter().map(|uri| uri.to_string()).collect()
}

fn states(nexus: &Nexus) -> Vec<ChildState> {
    nexus.children().iter().map(|child| child.state).collect()
}

/// A nexus of 64 MiB over the given devices, all registered and opened.
fn open_nexus(devices: Vec<DeviceHandle>) -> Nexus {
    let uris: Vec<String> = devices.iter().map(|d| d.name.clone()).collect();
    let registry = registry_of(devices);
    let mut nexus = Nexus::new("nexus0", 64 * MIB);
    nexus.register_children(&uris, &registry);
    assert_eq!(nexus.try_open_children(), Ok(()));
    nexus
}

fn mirror() -> Nexus {
    open_nexus(vec![
        DeviceHandle::new("aio:///tmp/disk1.img", 512, 131072, 512),
        DeviceHandle::new("aio:///tmp/disk2.img", 512, 131072, 4096),
    ])
}

#[test]
fn new_nexus_is_empty_and_in_init() {
    let nexus = Nexus::new("nexus0", 64 * MIB);
    assert_eq!(nexus.name(), "nexus0");
    assert_eq!(nexus.size(), 64 * MIB);
    assert_eq!(nexus.state(), NexusState::Init);
    assert_eq!(nexus.block_len(), None);
    assert_eq!(nexus.required_alignment(), 0);
    assert_eq!(nexus.child_count(), 0);
    assert!(nexus.children().is_empty());
    assert_eq!(nexus.min_num_blocks(), u64::MAX);
}

#[test]
fn happy_path_open() {
    let registry = registry_of(vec![
        DeviceHandle::new("aio:///tmp/disk1.img", 512, 131072, 512),
        DeviceHandle::new("aio:///tmp/disk2.img", 512, 131072, 512),
    ]);
    let mut nexus = Nexus::new("nexus0", 64 * MIB);
    nexus.register_children(
        &names(&["aio:///tmp/disk1.img", "aio:///tmp/disk2.img"]),
        &registry,
    );
    assert_eq!(states(&nexus), vec![ChildState::Init, ChildState::Init]);
    assert_eq!(nexus.try_open_children(), Ok(()));
    assert_eq!(nexus.block_len(), Some(512));
    assert_eq!(nexus.state(), NexusState::Open);
    assert_eq!(states(&nexus), vec![ChildState::Open, ChildState::Open]);
    assert_eq!(nexus.child_count(), 2);
    assert_eq!(nexus.min_num_blocks(), 131072);
    assert_eq!(nexus.required_alignment(), 512);
    assert!(nexus.take_events().is_empty());
}

#[test]
fn mixed_block_sizes() {
    let registry = registry_of(vec![
        DeviceHandle::new("a", 512, 131072, 512),
        DeviceHandle::new("b", 4096, 131072, 512),
    ]);
    let mut nexus = Nexus::new("nexus0", 64 * MIB);
    nexus.register_children(&names(&["a", "b"]), &registry);
    assert_eq!(
        nexus.try_open_children(),
        Err(Error::Invalid("children have mixed block sizes".to_string()))
    );
    assert_eq!(states(&nexus), vec![ChildState::Init, ChildState::Init]);
    assert_eq!(nexus.state(), NexusState::Init);
    assert_eq!(nexus.block_len(), None);
}

#[test]
fn add_then_offline() {
    let mut nexus = open_nexus(vec![DeviceHandle::new("a", 512, 131072, 512)]);
    let registry = registry_of(vec![DeviceHandle::new("bdev-b", 512, 131072, 512)]);
    assert_eq!(
        nexus.add_child("b", Ok("bdev-b".to_string()), &registry),
        Addition { result: Ok(NexusState::Degraded), orphan: None }
    );
    assert_eq!(nexus.state(), NexusState::Degraded);
    assert_eq!(states(&nexus), vec![ChildState::Open, ChildState::Faulted]);
    assert_eq!(nexus.children()[1].name, "b");
    assert_eq!(nexus.children()[1].parent, "nexus0");
    assert_eq!(nexus.child_count(), 2);

    assert_eq!(nexus.offline_child("a"), Ok(NexusState::Degraded));
    assert_eq!(nexus.state(), NexusState::Degraded);
    assert_eq!(states(&nexus), vec![ChildState::Closed, ChildState::Faulted]);
    assert_eq!(
        nexus.take_events(),
        vec![DREvent::ChildAdd, DREvent::ChildOffline]
    );
}

#[test]
fn destroy_without_close() {
    let mut nexus = mirror();
    assert_eq!(
        nexus.remove_child("aio:///tmp/disk1.img"),
        Err(Error::Invalid("must close me".to_string()))
    );
    assert_eq!(nexus.child_count(), 2);
    assert_eq!(nexus.children().len(), 2);
    assert_eq!(states(&nexus), vec![ChildState::Open, ChildState::Open]);
    assert_eq!(nexus.state(), NexusState::Open);
}

#[test]
fn label_mismatch() {
    let nexus = mirror();
    let probes = vec![
        Ok(NexusLabel::new(1, 34, 1000)),
        Ok(NexusLabel::new(2, 34, 1000)),
    ];
    assert_eq!(
        nexus.update_child_labels(probes),
        Err(Error::Invalid("GPT labels differ".to_string()))
    );
}

#[test]
fn transactional_open_failure() {
    let registry = registry_of(vec![
        DeviceHandle::new("a", 512, 131072, 512),
        DeviceHandle::new("b", 512, 131072, 512),
        DeviceHandle::new("c", 512, 131071, 512),
    ]);
    let mut nexus = Nexus::new("nexus0", 64 * MIB);
    nexus.register_children(&names(&["a", "b", "c"]), &registry);
    assert_eq!(nexus.try_open_children(), Err(Error::Incomplete));
    assert_eq!(
        states(&nexus),
        vec![ChildState::Closed, ChildState::Closed, ChildState::Init]
    );
    assert_eq!(nexus.state(), NexusState::Init);
    assert_eq!(nexus.block_len(), None);
    assert_eq!(nexus.required_alignment(), 0);
    assert_eq!(nexus.child_count(), 3);
    assert!(nexus.routing_table().is_empty());
}

#[test]
fn open_can_be_tried_again_after_a_failure() {
    let registry = registry_of(vec![DeviceHandle::new("a", 512, 131072, 512)]);
    let mut nexus = Nexus::new("nexus0", 64 * MIB);
    nexus.register_children(&names(&["a", "late"]), &registry);
    assert_eq!(nexus.try_open_children(), Err(Error::Incomplete));
    assert_eq!(states(&nexus), vec![ChildState::Init, ChildState::Init]);

    let registry = registry_of(vec![DeviceHandle::new("late", 512, 262144, 1024)]);
    assert!(nexus.examine_child("late", &registry));
    assert_eq!(nexus.try_open_children(), Ok(()));
    assert_eq!(states(&nexus), vec![ChildState::Open, ChildState::Open]);
    assert_eq!(nexus.min_num_blocks(), 131072);
    assert_eq!(nexus.required_alignment(), 1024);
}

#[test]
fn open_without_children_is_incomplete() {
    let mut nexus = Nexus::new("nexus0", 64 * MIB);
    assert_eq!(nexus.try_open_children(), Err(Error::Incomplete));
    assert_eq!(nexus.state(), NexusState::Init);
}

#[test]
fn child_count_follows_the_children() {
    let registry = registry_of(vec![
        DeviceHandle::new("a", 512, 131072, 512),
        DeviceHandle::new("b", 512, 131072, 512),
        DeviceHandle::new("bdev-c", 512, 131072, 512),
        DeviceHandle::new("bdev-d", 512, 200000, 512),
    ]);
    let mut nexus = Nexus::new("nexus0", 64 * MIB);
    assert_eq!(nexus.child_count(), nexus.children().len());
    nexus.register_children(&names(&["a", "b"]), &registry);
    assert_eq!(nexus.child_count(), 2);
    assert_eq!(nexus.child_count(), nexus.children().len());
    assert_eq!(
        nexus.register_child("c", Ok("bdev-c".to_string()), &registry),
        Ok("bdev-c".to_string())
    );
    assert_eq!(nexus.child_count(), 3);
    assert_eq!(nexus.child_count(), nexus.children().len());
    assert_eq!(nexus.try_open_children(), Ok(()));
    assert_eq!(
        nexus.add_child("d", Ok("bdev-d".to_string()), &registry),
        Addition { result: Ok(NexusState::Degraded), orphan: None }
    );
    assert_eq!(nexus.child_count(), 4);
    assert_eq!(nexus.child_count(), nexus.children().len());
    assert_eq!(nexus.offline_child("b"), Ok(NexusState::Degraded));
    assert_eq!(nexus.child_count(), 4);
    let removed = nexus.remove_child("b").unwrap().unwrap();
    assert_eq!(removed.name, "b");
    assert_eq!(removed.state, ChildState::Closed);
    assert_eq!(nexus.child_count(), 3);
    assert_eq!(nexus.child_count(), nexus.children().len());
    let uris = nexus.destroy_children();
    assert_eq!(uris, names(&["a", "c", "d"]));
    assert_eq!(nexus.child_count(), 3);
    assert_eq!(nexus.child_count(), nexus.children().len());
}

#[test]
fn register_children_appends_in_order_and_resolves_devices() {
    let registry = registry_of(vec![DeviceHandle::new("b", 4096, 10, 64)]);
    let mut nexus = Nexus::new("nexus0", 0);
    nexus.register_children(&names(&["a"]), &registry);
    nexus.register_children(&names(&["b", "c"]), &registry);
    assert_eq!(nexus.child_count(), 3);
    let children = nexus.children();
    assert_eq!(children[0], NexusChild::new("a".to_string(), "nexus0".to_string(), None));
    assert_eq!(
        children[1],
        NexusChild::new(
            "b".to_string(),
            "nexus0".to_string(),
            Some(DeviceHandle::new("b", 4096, 10, 64))
        )
    );
    assert_eq!(children[2], NexusChild::new("c".to_string(), "nexus0".to_string(), None));
    assert_eq!(nexus.state(), NexusState::Init);
}

#[test]
fn register_child_hands_a_failed_creation_on() {
    let registry = DeviceRegistry::new();
    let mut nexus = Nexus::new("nexus0", 0);
    let failure = Error::DeviceCreate("no such file".to_string());
    assert_eq!(
        nexus.register_child("a", Err(failure.clone()), &registry),
        Err(failure)
    );
    assert_eq!(nexus.child_count(), 0);
    assert!(nexus.children().is_empty());
}

#[test]
fn register_child_names_the_child_by_its_uri() {
    let registry = registry_of(vec![DeviceHandle::new("disk1", 512, 8, 0)]);
    let mut nexus = Nexus::new("nexus0", 0);
    assert_eq!(
        nexus.register_child("aio:///disk1", Ok("disk1".to_string()), &registry),
        Ok("disk1".to_string())
    );
    assert_eq!(nexus.children()[0].name, "aio:///disk1");
    assert_eq!(
        nexus.children()[0].bdev,
        Some(DeviceHandle::new("disk1", 512, 8, 0))
    );
    assert_eq!(nexus.children()[0].state, ChildState::Init);
    assert_eq!(nexus.child_count(), 1);
}

#[test]
fn min_num_blocks_is_the_smallest_open_child() {
    let mut nexus = open_nexus(vec![
        DeviceHandle::new("a", 512, 300000, 512),
        DeviceHandle::new("b", 512, 131072, 512),
        DeviceHandle::new("c", 512, 200000, 512),
    ]);
    assert_eq!(nexus.min_num_blocks(), 131072);
    assert_eq!(nexus.offline_child("b"), Ok(NexusState::Degraded));
    assert_eq!(nexus.min_num_blocks(), 200000);
    assert_eq!(nexus.fault_child("c"), Ok(NexusState::Degraded));
    assert_eq!(nexus.min_num_blocks(), 300000);
    assert_eq!(nexus.offline_child("a"), Ok(NexusState::Degraded));
    assert_eq!(nexus.min_num_blocks(), u64::MAX);
}

#[test]
fn size_fits_the_smallest_open_child() {
    let nexus = mirror();
    let capacity = nexus.block_len().unwrap() as u128 * nexus.min_num_blocks() as u128;
    assert!(nexus.size() as u128 <= capacity);
}

#[test]
fn required_alignment_is_the_largest_among_open_children() {
    let mut nexus = mirror();
    assert_eq!(nexus.required_alignment(), 4096);
    assert_eq!(nexus.offline_child("aio:///tmp/disk2.img"), Ok(NexusState::Degraded));
    assert_eq!(nexus.required_alignment(), 512);
    assert_eq!(nexus.online_child("aio:///tmp/disk2.img"), Ok(NexusState::Degraded));
    assert_eq!(nexus.required_alignment(), 4096);
    assert_eq!(nexus.fault_child("aio:///tmp/disk1.img"), Ok(NexusState::Degraded));
    assert_eq!(nexus.fault_child("aio:///tmp/disk2.img"), Ok(NexusState::Degraded));
    assert_eq!(nexus.required_alignment(), 0);
}

#[test]
fn after_open_all_children_share_the_block_len() {
    let nexus = open_nexus(vec![
        DeviceHandle::new("a", 4096, 16384, 512),
        DeviceHandle::new("b", 4096, 16385, 512),
    ]);
    assert_eq!(nexus.block_len(), Some(4096));
    for child in nexus.children() {
        assert_eq!(child.state, ChildState::Open);
        assert_eq!(Some(child.bdev.as_ref().unwrap().block_len), nexus.block_len());
    }
}

#[test]
fn add_child_joins_faulted_and_degrades() {
    let mut nexus = mirror();
    let registry = registry_of(vec![DeviceHandle::new("bdev-c", 512, 131072, 8192)]);
    assert_eq!(
        nexus.add_child("c", Ok("bdev-c".to_string()), &registry),
        Addition { result: Ok(NexusState::Degraded), orphan: None }
    );
    let last = nexus.children().last().unwrap();
    assert_eq!(last.state, ChildState::Faulted);
    assert_eq!(last.name, "c");
    assert_eq!(nexus.state(), NexusState::Degraded);
    assert_eq!(nexus.required_alignment(), 4096);
    assert_eq!(nexus.routing_table(), vec![0, 1]);
}

#[test]
fn add_child_refuses_what_does_not_suit() {
    let mut nexus = mirror();
    let registry = registry_of(vec![
        DeviceHandle::new("wide", 4096, 131072, 512),
        DeviceHandle::new("small", 512, 131071, 512),
        DeviceHandle::new("exact", 512, 131072, 512),
    ]);
    assert_eq!(
        nexus.add_child("c", Ok("wide".to_string()), &registry),
        Addition { result: Err(Error::GeometryMismatch), orphan: Some("c".to_string()) }
    );
    assert_eq!(
        nexus.add_child("c", Ok("small".to_string()), &registry),
        Addition { result: Err(Error::GeometryMismatch), orphan: Some("c".to_string()) }
    );
    assert_eq!(
        nexus.add_child("c", Ok("missing".to_string()), &registry),
        Addition {
            result: Err(Error::Internal("child does not exist".to_string())),
            orphan: Some("c".to_string())
        }
    );
    let failure = Error::DeviceCreate("refused".to_string());
    assert_eq!(
        nexus.add_child("c", Err(failure.clone()), &registry),
        Addition { result: Err(failure), orphan: None }
    );
    assert_eq!(nexus.child_count(), 2);
    assert_eq!(nexus.state(), NexusState::Open);
    assert!(nexus.take_events().is_empty());
    assert_eq!(
        nexus.add_child("c", Ok("exact".to_string()), &registry),
        Addition { result: Ok(NexusState::Degraded), orphan: None }
    );
    assert_eq!(nexus.child_count(), 3);
}

#[test]
fn common_label_is_returned() {
    let nexus = mirror();
    let label = NexusLabel::new(7, 34, 131038);
    assert_eq!(nexus.update_child_labels(vec![Ok(label), Ok(label)]), Ok(label));
}

#[test]
fn labels_cannot_be_settled_unless_all_were_read() {
    let mut nexus = mirror();
    let label = NexusLabel::new(7, 34, 131038);
    let failed = Error::LabelProbeFailed;
    assert_eq!(
        nexus.update_child_labels(vec![Ok(label), Err(Error::DeviceGone)]),
        Err(failed.clone())
    );
    assert_eq!(nexus.update_child_labels(vec![Ok(label)]), Err(failed.clone()));
    assert_eq!(
        nexus.update_child_labels(vec![Ok(label), Ok(label), Ok(label)]),
        Err(failed.clone())
    );
    assert_eq!(nexus.offline_child("aio:///tmp/disk2.img"), Ok(NexusState::Degraded));
    assert_eq!(nexus.update_child_labels(vec![Ok(label), Ok(label)]), Err(failed));
}

#[test]
fn labels_differ_in_any_field() {
    let nexus = mirror();
    let differ = Error::Invalid("GPT labels differ".to_string());
    assert_eq!(
        nexus.update_child_labels(vec![
            Ok(NexusLabel::new(7, 34, 1000)),
            Ok(NexusLabel::new(7, 35, 1000))
        ]),
        Err(differ.clone())
    );
    assert_eq!(
        nexus.update_child_labels(vec![
            Ok(NexusLabel::new(7, 34, 1000)),
            Ok(NexusLabel::new(7, 34, 1001))
        ]),
        Err(differ)
    );
}

#[test]
fn remove_of_an_absent_child_is_a_no_op() {
    let mut nexus = mirror();
    assert_eq!(nexus.remove_child("nobody"), Ok(None));
    assert_eq!(nexus.child_count(), 2);
    assert_eq!(states(&nexus), vec![ChildState::Open, ChildState::Open]);
    assert_eq!(nexus.state(), NexusState::Open);
    assert!(nexus.take_events().is_empty());

    let mut empty = Nexus::new("nexus1", 0);
    assert_eq!(empty.remove_child("nobody"), Ok(None));
    assert_eq!(empty.child_count(), 0);
    assert_eq!(empty.state(), NexusState::Init);
}

#[test]
fn online_then_offline() {
    let mut nexus = mirror();
    assert_eq!(nexus.offline_child("aio:///tmp/disk1.img"), Ok(NexusState::Degraded));
    assert_eq!(nexus.online_child("aio:///tmp/disk1.img"), Ok(NexusState::Degraded));
    assert_eq!(states(&nexus), vec![ChildState::Open, ChildState::Open]);
    assert_eq!(nexus.state(), NexusState::Degraded);
    assert_eq!(nexus.offline_child("aio:///tmp/disk1.img"), Ok(NexusState::Degraded));
    assert_eq!(states(&nexus), vec![ChildState::Closed, ChildState::Open]);
    assert_eq!(nexus.state(), NexusState::Degraded);
    assert_eq!(
        nexus.take_events(),
        vec![DREvent::ChildOffline, DREvent::ChildOnline, DREvent::ChildOffline]
    );
}

#[test]
fn register_then_remove_restores_the_count() {
    let registry = registry_of(vec![
        DeviceHandle::new("a", 512, 131072, 512),
        DeviceHandle::new("bdev-b", 512, 131072, 512),
    ]);
    let mut nexus = Nexus::new("nexus0", 64 * MIB);
    nexus.register_children(&names(&["a"]), &registry);
    let before: usize = nexus.child_count();
    assert_eq!(
        nexus.register_child("b", Ok("bdev-b".to_string()), &registry),
        Ok("bdev-b".to_string())
    );
    assert_eq!(nexus.child_count(), before + 1);
    assert_eq!(nexus.try_open_children(), Ok(()));
    assert_eq!(
        nexus.remove_child("b"),
        Err(Error::Invalid("must close me".to_string()))
    );
    assert_eq!(nexus.offline_child("b"), Ok(NexusState::Degraded));
    let removed = nexus.remove_child("b").unwrap().unwrap();
    assert_eq!(removed.destroy(), Ok("b".to_string()));
    assert_eq!(nexus.child_count(), before);
    assert_eq!(nexus.children().len(), 1);
    assert_eq!(nexus.children()[0].name, "a");
}

#[test]
fn removing_the_last_child_closes_the_nexus() {
    let mut nexus = open_nexus(vec![DeviceHandle::new("a", 512, 131072, 512)]);
    assert_eq!(nexus.offline_child("a"), Ok(NexusState::Degraded));
    assert!(nexus.remove_child("a").unwrap().is_some());
    assert_eq!(nexus.child_count(), 0);
    assert_eq!(nexus.state(), NexusState::Closed);
    assert_eq!(
        nexus.take_events(),
        vec![DREvent::ChildOffline, DREvent::ChildRemove]
    );
}

#[test]
fn remove_takes_the_first_child_of_the_name() {
    let registry = registry_of(vec![DeviceHandle::new("a", 512, 131072, 512)]);
    let mut nexus = Nexus::new("nexus0", 64 * MIB);
    nexus.register_children(&names(&["a", "b", "a"]), &registry);
    assert_eq!(
        nexus.remove_child("a"),
        Err(Error::Invalid("must close me".to_string()))
    );
    assert_eq!(nexus.destroy_children(), names(&["a", "b", "a"]));
    assert_eq!(nexus.state(), NexusState::Closed);
    assert!(nexus.remove_child("a").unwrap().is_some());
    let left: Vec<String> = nexus.children().iter().map(|c| c.name.clone()).collect();
    assert_eq!(left, names(&["b", "a"]));
    assert_eq!(nexus.child_count(), 2);
    assert_eq!(nexus.state(), NexusState::Closed);
}

#[test]
fn offline_of_an_unknown_child_is_not_found() {
    let mut nexus = mirror();
    assert_eq!(nexus.offline_child("nobody"), Err(Error::NotFound));
    assert_eq!(nexus.state(), NexusState::Open);
    assert_eq!(states(&nexus), vec![ChildState::Open, ChildState::Open]);
    assert!(nexus.take_events().is_empty());
}

#[test]
fn online_needs_a_closed_child() {
    let mut nexus = mirror();
    assert_eq!(nexus.online_child("nobody"), Err(Error::NotFound));
    assert_eq!(
        nexus.online_child("aio:///tmp/disk1.img"),
        Err(Error::Invalid("Child is not closed so can not open".to_string()))
    );
    assert_eq!(nexus.fault_child("aio:///tmp/disk1.img"), Ok(NexusState::Degraded));
    assert_eq!(
        nexus.online_child("aio:///tmp/disk1.img"),
        Err(Error::Invalid("Child is not closed so can not open".to_string()))
    );
    assert_eq!(states(&nexus), vec![ChildState::Faulted, ChildState::Open]);
}

#[test]
fn online_opens_a_child_of_a_nexus_that_was_never_opened() {
    let registry = registry_of(vec![
        DeviceHandle::new("good", 512, 131072, 512),
        DeviceHandle::new("small", 512, 131071, 512),
    ]);
    let mut nexus = Nexus::new("nexus0", 64 * MIB);
    nexus.register_children(&names(&["good", "small"]), &registry);
    assert_eq!(nexus.try_open_children(), Err(Error::Incomplete));
    assert_eq!(states(&nexus), vec![ChildState::Closed, ChildState::Init]);
    assert_eq!(nexus.block_len(), None);

    assert_eq!(nexus.online_child("good"), Ok(NexusState::Degraded));
    assert_eq!(states(&nexus), vec![ChildState::Open, ChildState::Init]);
    assert_eq!(nexus.state(), NexusState::Degraded);
    assert_eq!(nexus.block_len(), Some(512));
    assert_eq!(nexus.required_alignment(), 512);
    assert_eq!(nexus.min_num_blocks(), 131072);
    assert_eq!(nexus.routing_table(), vec![0]);
    assert_eq!(nexus.take_events(), vec![DREvent::ChildOnline]);
}

#[test]
fn online_hands_on_what_keeps_the_child_from_opening() {
    let registry = registry_of(vec![
        DeviceHandle::new("a", 512, 131072, 512),
        DeviceHandle::new("small", 512, 131071, 512),
    ]);
    let mut nexus = Nexus::new("nexus0", 64 * MIB);
    nexus.register_children(&names(&["a", "small", "unresolved"]), &registry);
    assert_eq!(nexus.destroy_children().len(), 3);
    assert_eq!(nexus.online_child("unresolved"), Err(Error::DeviceGone));
    assert_eq!(nexus.online_child("small"), Err(Error::GeometryMismatch));
    assert_eq!(states(&nexus), vec![ChildState::Closed; 3]);
    assert_eq!(nexus.state(), NexusState::Closed);
    assert_eq!(nexus.block_len(), None);
    assert!(nexus.take_events().is_empty());
    assert_eq!(nexus.online_child("a"), Ok(NexusState::Degraded));
    assert_eq!(
        states(&nexus),
        vec![ChildState::Open, ChildState::Closed, ChildState::Closed]
    );
}

#[test]
fn online_marks_a_child_of_another_block_len() {
    let registry = registry_of(vec![
        DeviceHandle::new("a", 512, 131072, 512),
        DeviceHandle::new("wide", 4096, 131072, 512),
    ]);
    let mut nexus = Nexus::new("nexus0", 64 * MIB);
    nexus.register_children(&names(&["a", "wide"]), &registry);
    assert_eq!(
        nexus.try_open_children(),
        Err(Error::Invalid("children have mixed block sizes".to_string()))
    );
    assert_eq!(nexus.destroy_children().len(), 2);
    assert_eq!(nexus.online_child("a"), Ok(NexusState::Degraded));
    assert_eq!(nexus.block_len(), Some(512));
    assert_eq!(nexus.take_events(), vec![DREvent::ChildOnline]);

    assert_eq!(nexus.online_child("wide"), Err(Error::GeometryMismatch));
    assert_eq!(states(&nexus), vec![ChildState::Open, ChildState::ConfigInvalid]);
    assert_eq!(nexus.state(), NexusState::Degraded);
    assert_eq!(nexus.block_len(), Some(512));
    assert!(nexus.take_events().is_empty());
    assert_eq!(
        nexus.online_child("wide"),
        Err(Error::Invalid("Child is not closed so can not open".to_string()))
    );
    assert_eq!(nexus.offline_child("wide"), Ok(NexusState::Degraded));
    assert!(nexus.remove_child("wide").unwrap().is_some());
    assert_eq!(nexus.child_count(), 1);
}

#[test]
fn add_child_records_the_block_len_where_none_is() {
    let registry = registry_of(vec![
        DeviceHandle::new("a", 512, 131072, 512),
        DeviceHandle::new("bdev-b", 4096, 16384, 512),
        DeviceHandle::new("bdev-c", 512, 131072, 512),
    ]);
    let mut nexus = Nexus::new("nexus0", 64 * MIB);
    nexus.register_children(&names(&["a"]), &registry);
    assert_eq!(
        nexus.add_child("b", Ok("bdev-b".to_string()), &registry),
        Addition { result: Ok(NexusState::Degraded), orphan: None }
    );
    assert_eq!(nexus.block_len(), Some(4096));
    assert_eq!(states(&nexus), vec![ChildState::Init, ChildState::Faulted]);
    assert_eq!(nexus.child_count(), 2);
    assert_eq!(
        nexus.add_child("c", Ok("bdev-c".to_string()), &registry),
        Addition { result: Err(Error::GeometryMismatch), orphan: Some("c".to_string()) }
    );
    assert_eq!(nexus.child_count(), 2);
}

#[test]
fn offline_closes_a_child_of_a_nexus_that_was_never_opened() {
    let mut nexus = Nexus::new("nexus0", 64 * MIB);
    nexus.register_children(&names(&["a"]), &DeviceRegistry::new());
    assert_eq!(nexus.offline_child("a"), Ok(NexusState::Degraded));
    assert_eq!(states(&nexus), vec![ChildState::Closed]);
    assert_eq!(nexus.state(), NexusState::Degraded);
    assert_eq!(nexus.take_events(), vec![DREvent::ChildOffline]);
}

#[test]
fn labels_of_a_nexus_without_children() {
    let nexus = Nexus::new("nexus0", 64 * MIB);
    assert_eq!(nexus.update_child_labels(vec![]), Err(Error::LabelProbeFailed));
}

#[test]
fn fault_child_takes_a_child_out_of_service() {
    let mut nexus = mirror();
    assert_eq!(nexus.fault_child("nobody"), Err(Error::NotFound));
    assert_eq!(nexus.state(), NexusState::Open);
    assert_eq!(nexus.fault_child("aio:///tmp/disk2.img"), Ok(NexusState::Degraded));
    assert_eq!(states(&nexus), vec![ChildState::Open, ChildState::Faulted]);
    assert_eq!(nexus.state(), NexusState::Degraded);
    assert_eq!(nexus.routing_table(), vec![0]);
    assert_eq!(nexus.take_events(), vec![DREvent::ChildFault]);
    assert!(nexus.take_events().is_empty());
}

#[test]
fn destroy_children_closes_everything() {
    let mut nexus = mirror();
    assert_eq!(nexus.fault_child("aio:///tmp/disk2.img"), Ok(NexusState::Degraded));
    let uris = nexus.destroy_children();
    assert_eq!(
        uris,
        names(&["aio:///tmp/disk1.img", "aio:///tmp/disk2.img"])
    );
    assert_eq!(states(&nexus), vec![ChildState::Closed, ChildState::Closed]);
    assert_eq!(nexus.state(), NexusState::Closed);
    assert_eq!(nexus.required_alignment(), 0);
    assert_eq!(nexus.min_num_blocks(), u64::MAX);
    assert!(nexus.routing_table().is_empty());
    for child in nexus.children() {
        assert!(child.destroy().is_ok());
    }
}

#[test]
fn examine_child_attaches_a_device_once() {
    let mut nexus = Nexus::new("nexus0", 64 * MIB);
    nexus.register_children(&names(&["a", "b", "b"]), &DeviceRegistry::new());
    assert!(!nexus.examine_child("b", &DeviceRegistry::new()));
    let registry = registry_of(vec![DeviceHandle::new("b", 512, 131072, 512)]);
    assert!(!nexus.examine_child("nobody", &registry));
    assert!(!nexus.examine_child("a", &registry));
    assert!(nexus.examine_child("b", &registry));
    assert_eq!(nexus.children()[0].bdev, None);
    assert_eq!(
        nexus.children()[1].bdev,
        Some(DeviceHandle::new("b", 512, 131072, 512))
    );
    assert_eq!(nexus.children()[2].bdev, None);
    assert_eq!(states(&nexus), vec![ChildState::Init; 3]);
    assert_eq!(nexus.state(), NexusState::Init);
    assert_eq!(nexus.child_count(), 3);
}

#[test]
fn examine_child_skips_children_that_were_opened() {
    let mut nexus = mirror();
    let registry = registry_of(vec![DeviceHandle::new("aio:///tmp/disk1.img", 4096, 1, 1)]);
    assert!(!nexus.examine_child("aio:///tmp/disk1.img", &registry));
    assert_eq!(
        nexus.children()[0].bdev,
        Some(DeviceHandle::new("aio:///tmp/disk1.img", 512, 131072, 512))
    );
}

#[test]
fn routing_table_lists_the_open_children() {
    let mut nexus = open_nexus(vec![
        DeviceHandle::new("a", 512, 131072, 512),
        DeviceHandle::new("b", 512, 131072, 512),
        DeviceHandle::new("c", 512, 131072, 512),
    ]);
    assert_eq!(nexus.routing_table(), vec![0, 1, 2]);
    assert_eq!(nexus.offline_child("a"), Ok(NexusState::Degraded));
    assert_eq!(nexus.routing_table(), vec![1, 2]);
    assert!(nexus.remove_child("a").unwrap().is_some());
    assert_eq!(nexus.routing_table(), vec![0, 1]);
    assert_eq!(nexus.fault_child("c"), Ok(NexusState::Degraded));
    assert_eq!(nexus.routing_table(), vec![0]);
}

#[test]
fn validate_geometry_wants_the_block_len_and_the_room() {
    let nexus = mirror();
    assert!(nexus.validate_geometry(&DeviceHandle::new("x", 512, 131072, 0)));
    assert!(nexus.validate_geometry(&DeviceHandle::new("x", 512, u64::MAX, 0)));
    assert!(!nexus.validate_geometry(&DeviceHandle::new("x", 512, 131071, 0)));
    assert!(!nexus.validate_geometry(&DeviceHandle::new("x", 1024, 131072, 0)));
    assert!(!nexus.validate_geometry(&DeviceHandle::new("x", 0, 131072, 0)));

    let unrecorded = Nexus::new("nexus1", 64 * MIB);
    assert!(unrecorded.validate_geometry(&DeviceHandle::new("x", 512, 131072, 0)));
    assert!(unrecorded.validate_geometry(&DeviceHandle::new("x", 4096, 16384, 0)));
    assert!(!unrecorded.validate_geometry(&DeviceHandle::new("x", 4096, 16383, 0)));
}

#[test]
fn nexus_state_follows_the_state_machine() {
    let registry = registry_of(vec![
        DeviceHandle::new("a", 512, 131072, 512),
        DeviceHandle::new("b", 512, 131072, 512),
        DeviceHandle::new("bdev-c", 512, 131072, 512),
    ]);
    let mut nexus = Nexus::new("nexus0", 64 * MIB);
    assert_eq!(nexus.state(), NexusState::Init);
    nexus.register_children(&names(&["a", "b"]), &registry);
    assert_eq!(nexus.state(), NexusState::Init);
    assert!(nexus.examine_child("a", &registry));
    assert_eq!(nexus.state(), NexusState::Init);
    assert_eq!(nexus.try_open_children(), Ok(()));
    assert_eq!(nexus.state(), NexusState::Open);
    assert_eq!(nexus.update_child_labels(vec![]), Err(Error::LabelProbeFailed));
    assert_eq!(nexus.state(), NexusState::Open);
    assert_eq!(nexus.offline_child("a"), Ok(NexusState::Degraded));
    assert_eq!(nexus.state(), NexusState::Degraded);
    assert_eq!(nexus.online_child("a"), Ok(NexusState::Degraded));
    assert_eq!(nexus.state(), NexusState::Degraded);
    assert_eq!(nexus.fault_child("b"), Ok(NexusState::Degraded));
    assert_eq!(nexus.state(), NexusState::Degraded);
    assert_eq!(
        nexus.add_child("c", Ok("bdev-c".to_string()), &registry),
        Addition { result: Ok(NexusState::Degraded), orphan: None }
    );
    assert_eq!(nexus.state(), NexusState::Degraded);
    assert_eq!(nexus.remove_child("nobody"), Ok(None));
    assert_eq!(nexus.state(), NexusState::Degraded);
    assert_eq!(nexus.destroy_children().len(), 3);
    assert_eq!(nexus.state(), NexusState::Closed);
}
