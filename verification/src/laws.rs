//! What holds of a nexus whatever is done to it, stated over its view and
//! the state machine of its operations.

use crate::channel::DREvent;
use crate::child::{ChildState, ChildView};
use crate::device::{lookup_device, DeviceView};
use crate::error::{Error, ErrorView};
use crate::label::NexusLabel;
use crate::machine::Operation;
use crate::model::{
    all_probed, all_probed_as, first_child_named, first_new_child_named,
    lemma_extremes_bounded, lemma_extremes_of_same_open_children,
    lemma_extremes_without_open_child, max_open_alignment, min_open_blocks, new_child,
    NexusState, NexusView,
};
use vstd::prelude::*;

verus! {

/// Where a child of some name stands, there is a first child of that name.
proof fn lemma_first_named_exists(children: Seq<ChildView>, name: Seq<char>, j: int)
    requires
        0 <= j < children.len(),
        children[j].name == name,
    ensures
        exists|i: int| first_child_named(children, name, i),
    decreases j,
{
    if exists|k: int| 0 <= k < j && (#[trigger] children[k]).name == name {
        let k = choose|k: int| 0 <= k < j && (#[trigger] children[k]).name == name;
        lemma_first_named_exists(children, name, k);
    } else {
        assert(first_child_named(children, name, j));
    }
}

/// The place that [`NexusView::child_index`] gives is that of the first
/// child of the name, and it gives none only if no child has the name.
pub proof fn lemma_child_index(nexus: NexusView, name: Seq<char>)
    ensures
        match nexus.child_index(name) {
            Some(i) => first_child_named(nexus.children, name, i),
            None => forall|j: int|
                0 <= j < nexus.children.len() ==> (#[trigger] nexus.children[j]).name != name,
        },
{
    if nexus.child_index(name) is None {
        assert forall|j: int| 0 <= j < nexus.children.len() implies (
        #[trigger] nexus.children[j]).name != name by {
            if nexus.children[j].name == name {
                lemma_first_named_exists(nexus.children, name, j);
            }
        }
    }
}

/// A change of the state of one child moves no child of any name.
pub proof fn lemma_child_index_after_state_change(
    nexus: NexusView,
    i: int,
    state: ChildState,
    name: Seq<char>,
)
    requires
        0 <= i < nexus.children.len(),
    ensures
        nexus.with_child_at(i, nexus.children[i].with_state(state)).child_index(name)
            == nexus.child_index(name),
{
    let after = nexus.with_child_at(i, nexus.children[i].with_state(state));
    assert forall|k: int| 0 <= k < nexus.children.len() implies (#[trigger] after.children[k]).name
        == nexus.children[k].name by {}
    assert forall|k: int|
        first_child_named(after.children, name, k) <==> first_child_named(
            nexus.children,
            name,
            k,
        ) by {
        if first_child_named(after.children, name, k) {
            assert forall|j: int| 0 <= j < k implies (#[trigger] nexus.children[j]).name
                != name by {
                assert(after.children[j].name != name);
            }
        }
        if first_child_named(nexus.children, name, k) {
            assert forall|j: int| 0 <= j < k implies (#[trigger] after.children[j]).name
                != name by {
                assert(nexus.children[j].name != name);
            }
        }
    }
}

/// A nexus stays well formed when one of its children changes to a state
/// other than open and the channels are told.
proof fn lemma_wf_after_child_left_service(
    nexus: NexusView,
    i: int,
    state: ChildState,
    event: DREvent,
)
    requires
        nexus.wf(),
        0 <= i < nexus.children.len(),
        state != ChildState::Open,
    ensures
        nexus.with_child_at(i, nexus.children[i].with_state(state)).reconfigured(event).with_state(
            NexusState::Degraded,
        ).wf(),
{
    let after = nexus.with_child_at(i, nexus.children[i].with_state(state)).reconfigured(event)
        .with_state(NexusState::Degraded);
    lemma_extremes_bounded(after.children);
    assert forall|k: int|
        0 <= k < after.children.len() && (#[trigger] after.children[k]).state
            == ChildState::Open implies after.serves(after.children[k]) by {
        assert(after.children[k] == nexus.children[k]);
    }
}

/// A nexus stays well formed when a closed child that can be opened, and
/// whose block size is not at odds with the one recorded, is opened and the
/// channels are told.
proof fn lemma_wf_after_online(nexus: NexusView, i: int)
    requires
        nexus.wf(),
        0 <= i < nexus.children.len(),
        nexus.children[i].can_open(nexus.size),
        !nexus.differs_in_block_len(nexus.children[i].device->Some_0.block_len),
    ensures
        nexus.online_child(i).wf(),
{
    let after = nexus.online_child(i);
    lemma_extremes_bounded(after.children);
    assert forall|k: int|
        0 <= k < after.children.len() && (#[trigger] after.children[k]).state
            == ChildState::Open implies after.serves(after.children[k]) by {
        if k != i {
            assert(after.children[k] == nexus.children[k]);
            assert(nexus.serves(nexus.children[k]));
        }
    }
}

/// A nexus stays well formed when a child that is not open changes in a way
/// that leaves it not open.
proof fn lemma_wf_after_idle_child_changed(nexus: NexusView, i: int, child: ChildView)
    requires
        nexus.wf(),
        0 <= i < nexus.children.len(),
        nexus.children[i].state != ChildState::Open,
        child.state != ChildState::Open,
        nexus.state == NexusState::Init ==> child.state == nexus.children[i].state,
    ensures
        nexus.with_child_at(i, child).wf(),
{
    let after = nexus.with_child_at(i, child);
    assert forall|k: int|
        0 <= k < after.children.len() && after.state == NexusState::Init implies (
    #[trigger] after.children[k]).state == ChildState::Init || after.children[k].state
        == ChildState::Closed by {
        assert(nexus.children[k].state == ChildState::Init || nexus.children[k].state
            == ChildState::Closed);
    }
    lemma_extremes_of_same_open_children(nexus.children, after.children);
    assert forall|k: int|
        0 <= k < after.children.len() && (#[trigger] after.children[k]).state
            == ChildState::Open implies after.serves(after.children[k]) by {
        assert(after.children[k] == nexus.children[k]);
    }
    assert forall|k: int|
        0 <= k < after.children.len() && !after.state.serving() implies (
    #[trigger] after.children[k]).state != ChildState::Open by {
        if k != i {
            assert(after.children[k] == nexus.children[k]);
        }
    }
}

/// A nexus that is being assembled stays well formed when new children
/// join it.
proof fn lemma_wf_after_registration(nexus: NexusView, joined: Seq<ChildView>)
    requires
        nexus.wf(),
        nexus.state == NexusState::Init,
        forall|k: int| 0 <= k < joined.len() ==> (#[trigger] joined[k]).state == ChildState::Init,
    ensures
        nexus.with_children(nexus.children + joined).wf(),
{
    let after = nexus.with_children(nexus.children + joined);
    assert forall|k: int| 0 <= k < after.children.len() implies (#[trigger] after.children[k]).state
        == ChildState::Init || after.children[k].state == ChildState::Closed by {
        if k < nexus.children.len() {
            assert(after.children[k] == nexus.children[k]);
            assert(nexus.children[k].state == ChildState::Init || nexus.children[k].state
                == ChildState::Closed);
        } else {
            assert(after.children[k] == joined[k - nexus.children.len()]);
        }
    }
    lemma_extremes_without_open_child(nexus.children);
    lemma_extremes_without_open_child(after.children);
}

/// A nexus stays well formed when a device that suits it joins it as a
/// faulted child.
proof fn lemma_wf_after_add(
    nexus: NexusView,
    uri: Seq<char>,
    device_name: Seq<char>,
    registry: Seq<DeviceView>,
)
    requires
        nexus.wf(),
        nexus.add_child_error(device_name, registry) is None,
    ensures
        nexus.add_child(uri, device_name, registry).wf(),
{
    let after = nexus.add_child(uri, device_name, registry);
    lemma_extremes_bounded(after.children);
    assert forall|k: int|
        0 <= k < after.children.len() && (#[trigger] after.children[k]).state
            == ChildState::Open implies after.serves(after.children[k]) by {
        assert(k < nexus.children.len());
        assert(after.children[k] == nexus.children[k]);
        assert(nexus.serves(nexus.children[k]));
    }
}

/// A nexus stays well formed when a child leaves it.
proof fn lemma_wf_after_remove(nexus: NexusView, uri: Seq<char>)
    requires
        nexus.wf(),
    ensures
        nexus.remove_child(uri).wf(),
{
    lemma_child_index(nexus, uri);
    match nexus.child_index(uri) {
        None => {},
        Some(i) => {
            let after = nexus.remove_child(uri);
            assert(after.children == nexus.children.remove(i));
            lemma_extremes_bounded(after.children);
            assert forall|k: int| 0 <= k < after.children.len() implies (
            #[trigger] after.children[k]) == nexus.children[if k < i {
                k
            } else {
                k + 1
            }] by {}
            assert forall|k: int|
                0 <= k < after.children.len() && (#[trigger] after.children[k]).state
                    == ChildState::Open implies after.serves(after.children[k]) by {
                let from = if k < i {
                    k
                } else {
                    k + 1
                };
                assert(after.children[k] == nexus.children[from]);
                assert(nexus.serves(nexus.children[from]));
            }
            assert forall|k: int|
                0 <= k < after.children.len() && !after.state.serving() implies (
            #[trigger] after.children[k]).state != ChildState::Open by {
                let from = if k < i {
                    k
                } else {
                    k + 1
                };
                assert(after.children[k] == nexus.children[from]);
            }
            assert forall|k: int|
                0 <= k < after.children.len() && after.state == NexusState::Init implies (
            #[trigger] after.children[k]).state == ChildState::Init || after.children[k].state
                == ChildState::Closed by {
                let from = if k < i {
                    k
                } else {
                    k + 1
                };
                assert(after.children[k] == nexus.children[from]);
                assert(nexus.children[from].state == ChildState::Init
                    || nexus.children[from].state == ChildState::Closed);
            }
        },
    }
}

/// A nexus is well formed after its children were closed for destruction.
proof fn lemma_wf_after_destroy(nexus: NexusView)
    requires
        nexus.wf(),
    ensures
        nexus.destroy_children().wf(),
{
    lemma_extremes_without_open_child(nexus.destroy_children().children);
}

/// A nexus that is being assembled is well formed after the attempt to
/// open its children, however that ended.
proof fn lemma_wf_after_try_open(nexus: NexusView)
    requires
        nexus.wf(),
        nexus.state == NexusState::Init,
    ensures
        nexus.try_open_children().wf(),
{
    let after = nexus.try_open_children();
    if !nexus.complete() || !nexus.uniform_block_len() {
    } else if !nexus.all_can_open() {
        assert forall|k: int| 0 <= k < after.children.len() implies (
        #[trigger] after.children[k]).state == ChildState::Init || after.children[k].state
            == ChildState::Closed by {
            assert(nexus.children[k].state == ChildState::Init || nexus.children[k].state
                == ChildState::Closed);
        }
        lemma_extremes_without_open_child(nexus.children);
        lemma_extremes_without_open_child(after.children);
    } else {
        lemma_extremes_bounded(after.children);
        assert forall|k: int|
            0 <= k < after.children.len() && (#[trigger] after.children[k]).state
                == ChildState::Open implies after.serves(after.children[k]) by {
            assert(nexus.children[k].can_open(nexus.size));
            assert(nexus.children[k].device is Some);
            assert(nexus.children[0].device is Some);
        }
    }
}

/// Well-formedness is kept by every operation: whatever may be called on a
/// well-formed nexus leaves it well formed. In particular the count of
/// children equals their number, an exported nexus has a child, every open
/// child has the block size of the nexus and room for its logical size,
/// and the required alignment is the largest among the open children.
pub proof fn lemma_step_preserves_wf(nexus: NexusView, op: Operation)
    requires
        nexus.wf(),
        nexus.admits(op),
    ensures
        nexus.step(op).wf(),
        nexus.step(op).child_count == nexus.step(op).children.len(),
{
    match op {
        Operation::RegisterChildren { names, registry } => {
            lemma_wf_after_registration(
                nexus,
                Seq::new(
                    names.len(),
                    |i: int| new_child(names[i], nexus.name, lookup_device(registry, names[i])),
                ),
            );
        },
        Operation::RegisterChild { uri, created, registry } => {
            if let Some(device_name) = created {
                let child = new_child(uri, nexus.name, lookup_device(registry, device_name));
                lemma_wf_after_registration(nexus, seq![child]);
                assert(nexus.children + seq![child] =~= nexus.children.push(child));
            }
        },
        Operation::AddChild { uri, created, registry } => {
            if let Some(device_name) = created {
                if nexus.add_child_error(device_name, registry) is None {
                    lemma_wf_after_add(nexus, uri, device_name, registry);
                }
            }
        },
        Operation::RemoveChild { uri } => {
            lemma_wf_after_remove(nexus, uri);
        },
        Operation::OfflineChild { name } => {
            lemma_child_index(nexus, name);
            if let Some(i) = nexus.child_index(name) {
                lemma_wf_after_child_left_service(
                    nexus,
                    i,
                    ChildState::Closed,
                    DREvent::ChildOffline,
                );
            }
        },
        Operation::OnlineChild { name } => {
            lemma_child_index(nexus, name);
            if let Some(i) = nexus.child_index(name) {
                if nexus.online_child_error(name) is None {
                    lemma_wf_after_online(nexus, i);
                } else if nexus.online_rejects(name) {
                    lemma_wf_after_idle_child_changed(
                        nexus,
                        i,
                        nexus.children[i].with_state(ChildState::ConfigInvalid),
                    );
                }
            }
        },
        Operation::FaultChild { name } => {
            lemma_child_index(nexus, name);
            if let Some(i) = nexus.child_index(name) {
                lemma_wf_after_child_left_service(
                    nexus,
                    i,
                    ChildState::Faulted,
                    DREvent::ChildFault,
                );
            }
        },
        Operation::DestroyChildren => {
            lemma_wf_after_destroy(nexus);
        },
        Operation::ExamineChild { name, registry } => {
            if let (Some(i), Some(device)) = (
                nexus.new_child_index(name),
                lookup_device(registry, name),
            ) {
                assert(first_new_child_named(nexus.children, name, i));
                lemma_wf_after_idle_child_changed(nexus, i, nexus.children[i].with_device(device));
            }
        },
        Operation::TryOpenChildren => {
            lemma_wf_after_try_open(nexus);
        },
        Operation::TakeEvents => {},
    }
}

/// Across any sequence of operations, each called where it may be, the
/// nexus stays well formed, and so its count of children equals their
/// number.
pub proof fn lemma_run_preserves_wf(nexus: NexusView, ops: Seq<Operation>)
    requires
        nexus.wf(),
        nexus.admits_all(ops),
    ensures
        nexus.run(ops).wf(),
        nexus.run(ops).child_count == nexus.run(ops).children.len(),
    decreases ops.len(),
{
    if ops.len() > 0 {
        lemma_step_preserves_wf(nexus, ops[0]);
        lemma_run_preserves_wf(nexus.step(ops[0]), ops.drop_first());
    }
}

/// Every operation moves the nexus along its state machine, each in its
/// own way: see [`Operation::may_move`]. In particular nothing but opening
/// the children together makes a nexus open, and nothing but the
/// destruction of the children, or the removal of the last child of an
/// exported nexus, makes it closed.
pub proof fn lemma_step_follows_state_machine(nexus: NexusView, op: Operation)
    requires
        nexus.wf(),
        nexus.admits(op),
    ensures
        op.may_move(nexus.state, nexus.step(op).state),
        nexus.step(op).state != nexus.state && nexus.step(op).state == NexusState::Closed ==> {
            ||| op is DestroyChildren
            ||| op is RemoveChild && nexus.state.serving() && nexus.children.len() == 1
        },
{
    if let Operation::RemoveChild { uri } = op {
        lemma_child_index(nexus, uri);
    }
}

/// The smallest number of blocks is the minimum over the open children: no
/// open child has fewer blocks, some open child has exactly as many if
/// there is one at all, and without an open child it is `u64::MAX`.
pub proof fn lemma_min_num_blocks(children: Seq<ChildView>)
    ensures
        forall|i: int|
            0 <= i < children.len() && (#[trigger] children[i]).in_service()
                ==> min_open_blocks(children) <= children[i].device->Some_0.num_blocks,
        (exists|i: int| 0 <= i < children.len() && (#[trigger] children[i]).in_service())
            ==> exists|i: int|
            0 <= i < children.len() && (#[trigger] children[i]).in_service()
                && children[i].device->Some_0.num_blocks == min_open_blocks(children),
        (forall|i: int| 0 <= i < children.len() ==> !(#[trigger] children[i]).in_service())
            ==> min_open_blocks(children) == u64::MAX,
    decreases children.len(),
{
    if children.len() > 0 {
        let front = children.drop_last();
        let last = children.len() - 1;
        lemma_min_num_blocks(front);
        lemma_extremes_bounded(front);
        assert forall|i: int| 0 <= i < front.len() implies (#[trigger] front[i])
            == children[i] by {}
        assert forall|i: int|
            0 <= i < children.len() && (
            #[trigger] children[i]).in_service() implies min_open_blocks(children)
            <= children[i].device->Some_0.num_blocks by {
            if i < last {
                assert(front[i].in_service());
            }
        }
        if exists|i: int| 0 <= i < children.len() && (#[trigger] children[i]).in_service() {
            if min_open_blocks(children) == min_open_blocks(front) && exists|i: int|
                0 <= i < front.len() && (#[trigger] front[i]).in_service() {
                let w = choose|i: int|
                    0 <= i < front.len() && (#[trigger] front[i]).in_service()
                        && front[i].device->Some_0.num_blocks == min_open_blocks(front);
                assert(children[w].in_service());
            } else {
                if children[last].in_service() {
                    if !(exists|i: int|
                        0 <= i < front.len() && (#[trigger] front[i]).in_service()) {
                        assert(min_open_blocks(front) == u64::MAX);
                    }
                    assert(children[last].device->Some_0.num_blocks == min_open_blocks(
                        children,
                    ));
                } else {
                    let w = choose|i: int|
                        0 <= i < children.len() && (#[trigger] children[i]).in_service();
                    assert(w < last);
                    assert(front[w].in_service());
                }
            }
        }
        if forall|i: int| 0 <= i < children.len() ==> !(#[trigger] children[i]).in_service() {
            assert forall|i: int| 0 <= i < front.len() implies !(
            #[trigger] front[i]).in_service() by {
                assert(!children[i].in_service());
            }
        }
    }
}

/// The largest alignment is the maximum over the open children: no open
/// child requires more, and some open child requires exactly as much
/// unless it is 0.
pub proof fn lemma_max_alignment(children: Seq<ChildView>)
    ensures
        forall|i: int|
            0 <= i < children.len() && (#[trigger] children[i]).in_service()
                ==> children[i].device->Some_0.alignment <= max_open_alignment(children),
        max_open_alignment(children) != 0 ==> exists|i: int|
            0 <= i < children.len() && (#[trigger] children[i]).in_service()
                && children[i].device->Some_0.alignment == max_open_alignment(children),
    decreases children.len(),
{
    if children.len() > 0 {
        let front = children.drop_last();
        let last = children.len() - 1;
        lemma_max_alignment(front);
        assert forall|i: int| 0 <= i < front.len() implies (#[trigger] front[i])
            == children[i] by {}
        assert forall|i: int|
            0 <= i < children.len() && (
            #[trigger] children[i]).in_service() implies children[i].device->Some_0.alignment
            <= max_open_alignment(children) by {
            if i < last {
                assert(front[i].in_service());
            }
        }
        if max_open_alignment(children) != 0 {
            if max_open_alignment(children) == max_open_alignment(front) {
                let w = choose|i: int|
                    0 <= i < front.len() && (#[trigger] front[i]).in_service()
                        && front[i].device->Some_0.alignment == max_open_alignment(front);
                assert(children[w].in_service());
            } else {
                assert(children[last].in_service());
            }
        }
    }
}

/// The logical size of a well-formed nexus with an open child is at most
/// its block size times the smallest number of blocks among its open
/// children.
pub proof fn lemma_size_within_smallest_child(nexus: NexusView)
    requires
        nexus.wf(),
        exists|i: int|
            0 <= i < nexus.children.len() && (#[trigger] nexus.children[i]).state
                == ChildState::Open,
    ensures
        nexus.block_len is Some,
        nexus.size <= nexus.block_len->Some_0 * nexus.min_num_blocks(),
{
    lemma_min_num_blocks(nexus.children);
    let o = choose|i: int|
        0 <= i < nexus.children.len() && (#[trigger] nexus.children[i]).state
            == ChildState::Open;
    assert(nexus.serves(nexus.children[o]));
    assert(nexus.children[o].in_service());
    let w = choose|i: int|
        0 <= i < nexus.children.len() && (#[trigger] nexus.children[i]).in_service()
            && nexus.children[i].device->Some_0.num_blocks == min_open_blocks(nexus.children);
    assert(nexus.serves(nexus.children[w]));
    assert(nexus.children[w].device->Some_0.num_blocks * nexus.children[w].device->Some_0.block_len
        == nexus.block_len->Some_0 * nexus.min_num_blocks()) by (nonlinear_arith)
        requires
            nexus.children[w].device->Some_0.num_blocks == nexus.min_num_blocks(),
            nexus.children[w].device->Some_0.block_len == nexus.block_len->Some_0,
    ;
}

/// After the children of a nexus that is being assembled were opened
/// together, each of them is open with a device of the block size that the
/// nexus recorded, and the nexus is open. After the attempt failed, the
/// nexus is as it was but for children that were closed, and each child is
/// new or closed.
pub proof fn lemma_try_open_children(nexus: NexusView)
    requires
        nexus.wf(),
        nexus.state == NexusState::Init,
    ensures
        nexus.try_open_children().children.len() == nexus.children.len(),
        nexus.try_open_error() is None ==> {
            &&& nexus.try_open_children().state == NexusState::Open
            &&& nexus.try_open_children().block_len is Some
            &&& forall|i: int|
                0 <= i < nexus.children.len() ==> {
                    &&& (#[trigger] nexus.try_open_children().children[i]).state
                        == ChildState::Open
                    &&& nexus.try_open_children().children[i].device is Some
                    &&& Some(nexus.try_open_children().children[i].device->Some_0.block_len)
                        == nexus.try_open_children().block_len
                }
        },
        nexus.try_open_error() is Some ==> {
            &&& nexus.try_open_children().state == NexusState::Init
            &&& nexus.try_open_children().block_len is None
            &&& forall|i: int|
                0 <= i < nexus.children.len() ==> (
                #[trigger] nexus.try_open_children().children[i]).state == ChildState::Init
                    || nexus.try_open_children().children[i].state == ChildState::Closed
        },
{
    let after = nexus.try_open_children();
    if nexus.try_open_error() is None {
        assert forall|i: int| 0 <= i < nexus.children.len() implies {
            &&& (#[trigger] after.children[i]).state == ChildState::Open
            &&& after.children[i].device is Some
            &&& Some(after.children[i].device->Some_0.block_len) == after.block_len
        } by {
            assert(nexus.children[i].device is Some);
        }
    } else {
        assert forall|i: int| 0 <= i < nexus.children.len() implies (
        #[trigger] after.children[i]).state == ChildState::Init || after.children[i].state
            == ChildState::Closed by {
            assert(nexus.children[i].state == ChildState::Init || nexus.children[i].state
                == ChildState::Closed);
        }
    }
}

/// After a child was added, it is the last child and faulted, the children
/// before it are as they were, and the nexus is degraded.
pub proof fn lemma_add_child(
    nexus: NexusView,
    uri: Seq<char>,
    device_name: Seq<char>,
    registry: Seq<DeviceView>,
)
    ensures
        nexus.add_child(uri, device_name, registry).state == NexusState::Degraded,
        nexus.add_child(uri, device_name, registry).children.len() == nexus.children.len() + 1,
        nexus.add_child(uri, device_name, registry).children.last().state == ChildState::Faulted,
        nexus.add_child(uri, device_name, registry).children.last().name == uri,
        nexus.add_child(uri, device_name, registry).children.drop_last() == nexus.children,
{
    assert(nexus.add_child(uri, device_name, registry).children.drop_last() =~= nexus.children);
}

/// The probes of the children's labels amount to the label `label` if and
/// only if every child was probed and every label read is `label`.
pub proof fn lemma_common_label(
    nexus: NexusView,
    probes: Seq<Result<NexusLabel, Error>>,
    label: NexusLabel,
)
    requires
        nexus.children.len() > 0,
    ensures
        nexus.common_label(probes) == Ok::<NexusLabel, ErrorView>(label) <==> all_probed_as(
            nexus.children,
            probes,
            label,
        ),
{
    if all_probed_as(nexus.children, probes, label) {
        assert(all_probed(nexus.children, probes)) by {
            assert forall|i: int| 0 <= i < nexus.children.len() implies (
            #[trigger] nexus.children[i]).probed(probes[i]) is Some by {}
        }
        assert(nexus.children[0].probed(probes[0]) == Some(label));
    }
}

/// To remove a child that the nexus does not have is no error and changes
/// nothing.
pub proof fn lemma_remove_absent_child(nexus: NexusView, uri: Seq<char>)
    requires
        forall|i: int| 0 <= i < nexus.children.len() ==> (#[trigger] nexus.children[i]).name != uri,
    ensures
        nexus.remove_child_error(uri) is None,
        nexus.remove_child(uri) == nexus,
        nexus.step(Operation::RemoveChild { uri }) == nexus,
{
    lemma_child_index(nexus, uri);
    if let Some(i) = nexus.child_index(uri) {
        assert(nexus.children[i].name == uri);
    }
}

/// A child that was brought online can be taken offline at once, and is
/// then closed while the nexus is degraded.
pub proof fn lemma_online_then_offline(nexus: NexusView, name: Seq<char>)
    requires
        nexus.wf(),
        nexus.online_child_error(name) is None,
    ensures
        nexus.step(Operation::OnlineChild { name }).admits(Operation::OfflineChild { name }),
        nexus.step(Operation::OnlineChild { name }).child_index(name) == nexus.child_index(name),
        nexus.step(Operation::OnlineChild { name }).step(Operation::OfflineChild { name }).state
            == NexusState::Degraded,
        nexus.step(Operation::OnlineChild { name }).step(
            Operation::OfflineChild { name },
        ).children[nexus.child_index(name)->Some_0].state == ChildState::Closed,
        nexus.step(Operation::OnlineChild { name }).step(
            Operation::OfflineChild { name },
        ).children.len() == nexus.children.len(),
{
    lemma_child_index(nexus, name);
    let i = nexus.child_index(name)->Some_0;
    lemma_child_index_after_state_change(nexus, i, ChildState::Open, name);
    let online = nexus.step(Operation::OnlineChild { name });
    assert(online.children == nexus.with_child_at(
        i,
        nexus.children[i].with_state(ChildState::Open),
    ).children);
    assert(online.child_index(name) == nexus.child_index(name));
}

/// A child that was registered, opened with the others, and taken offline
/// can be removed, and the nexus then has as many children as before the
/// registration.
pub proof fn lemma_register_then_remove(
    nexus: NexusView,
    uri: Seq<char>,
    device_name: Seq<char>,
    registry: Seq<DeviceView>,
)
    requires
        nexus.wf(),
        nexus.state == NexusState::Init,
        nexus.register_child(uri, device_name, registry).try_open_error() is None,
    ensures
        ({
            let registered = nexus.step(
                Operation::RegisterChild { uri, created: Some(device_name), registry },
            );
            let opened = registered.step(Operation::TryOpenChildren);
            let closed = opened.step(Operation::OfflineChild { name: uri });
            let removed = closed.step(Operation::RemoveChild { uri });
            &&& registered.child_count == nexus.child_count + 1
            &&& opened.admits(Operation::OfflineChild { name: uri })
            &&& closed.remove_child_error(uri) is None
            &&& removed.child_count == nexus.child_count
        }),
{
    let registered = nexus.register_child(uri, device_name, registry);
    let opened = registered.try_open_children();
    let joined = nexus.children.len() as int;
    assert(registered.children[joined].name == uri);
    assert(opened.children[joined].name == uri);
    lemma_first_named_exists(opened.children, uri, joined);
    lemma_child_index(opened, uri);
    let i = opened.child_index(uri)->Some_0;
    lemma_child_index_after_state_change(opened, i, ChildState::Closed, uri);
    let closed = opened.offline_child(i);
    assert(closed.children == opened.with_child_at(
        i,
        opened.children[i].with_state(ChildState::Closed),
    ).children);
    assert(closed.child_index(uri) == Some(i));
}

/// A closed child that can be opened is brought online unless the block
/// size of its device is at odds with the one recorded for the nexus; so
/// it always is where none is recorded. The child is then open, the other
/// children are as they were, the block size of its device is the one
/// recorded, one event tells the channels, and the nexus is degraded.
pub proof fn lemma_online_child(nexus: NexusView, name: Seq<char>)
    requires
        nexus.child_index(name) is Some,
        nexus.children[nexus.child_index(name)->Some_0].state == ChildState::Closed,
        nexus.children[nexus.child_index(name)->Some_0].can_open(nexus.size),
        nexus.block_len is None || nexus.block_len == Some(
            nexus.children[nexus.child_index(name)->Some_0].device->Some_0.block_len,
        ),
    ensures
        nexus.online_child_error(name) is None,
        ({
            let i = nexus.child_index(name)->Some_0;
            let after = nexus.step(Operation::OnlineChild { name });
            &&& after.state == NexusState::Degraded
            &&& after.children == nexus.children.update(
                i,
                nexus.children[i].with_state(ChildState::Open),
            )
            &&& after.block_len == Some(nexus.children[i].device->Some_0.block_len)
            &&& after.events == nexus.events.push(DREvent::ChildOnline)
            &&& after.child_count == nexus.children.len()
        }),
{
    lemma_child_index(nexus, name);
}

} // verus!
