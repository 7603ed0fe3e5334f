use wgpu_bindings::id::{Backend, Id};
use wgpu_bindings::registry::{InvalidResourceError, PrepareError, Registry};

fn id(index: u32, generation: u32) -> Id {
    Id::zip(index, generation, Backend::Vulkan)
}

#[test]
fn id_parts_round_trip() {
    let i = Id::zip(7, 3, Backend::Metal);
    assert_eq!(i.unzip(), (7, 3, Backend::Metal));
    assert_eq!(i.index(), 7);
    assert_eq!(i.generation(), 3);
    assert_eq!(i.backend(), Backend::Metal);
}

#[test]
fn get_succeeds_until_remove() {
    let mut table: Registry<u32> = Registry::new(Backend::Vulkan);
    let fid = table.prepare(None).unwrap();
    let a = table.assign(fid, 11);
    let fid = table.prepare(None).unwrap();
    let b = table.assign(fid, 22);
    assert_ne!(a, b);
    assert_eq!(table.get(a), Ok(&11));
    assert_eq!(table.get(b), Ok(&22));
    assert!(table.remove(a));
    assert_eq!(table.get(a), Err(InvalidResourceError { id: a }));
    assert_eq!(table.get(b), Ok(&22));
}

#[test]
fn stale_id_fails_after_slot_reuse() {
    let mut table: Registry<u32> = Registry::new(Backend::Vulkan);
    let fid = table.prepare(None).unwrap();
    let old = table.assign(fid, 1);
    assert!(table.remove(old));
    let fid = table.prepare(None).unwrap();
    let new = table.assign(fid, 2);
    assert_eq!(new.index(), old.index());
    assert_eq!(new.generation(), old.generation() + 1);
    assert_eq!(table.get(old), Err(InvalidResourceError { id: old }));
    assert_eq!(table.get(new), Ok(&2));
    assert!(!table.remove(old));
    assert_eq!(table.get(new), Ok(&2));
}

#[test]
fn reserved_id_does_not_resolve() {
    let mut table: Registry<u32> = Registry::new(Backend::Vulkan);
    let fid = table.prepare(Some(id(4, 1))).unwrap();
    assert_eq!(fid.id(), id(4, 1));
    assert!(table.get(id(4, 1)).is_err());
    assert!(!table.contains(id(4, 1)));
    let got = table.assign(fid, 9);
    assert_eq!(got, id(4, 1));
    assert_eq!(table.get(got), Ok(&9));
}

#[test]
fn explicit_id_is_refused_when_unavailable() {
    let mut table: Registry<u32> = Registry::new(Backend::Vulkan);
    let fid = table.prepare(Some(id(0, 2))).unwrap();
    table.assign(fid, 5);
    // In use.
    assert_eq!(table.prepare(Some(id(0, 2))).err(), Some(PrepareError::Unavailable));
    // An older generation of the slot.
    assert_eq!(table.prepare(Some(id(0, 1))).err(), Some(PrepareError::Unavailable));
    // Generation zero is never handed out.
    assert_eq!(table.prepare(Some(id(3, 0))).err(), Some(PrepareError::Unavailable));
    // Another backend.
    assert_eq!(
        table.prepare(Some(Id::zip(9, 1, Backend::Dx12))).err(),
        Some(PrepareError::Unavailable)
    );
    assert!(!table.can_accept(id(0, 3)));
    assert!(table.remove(id(0, 2)));
    assert!(!table.can_accept(id(0, 2)));
    assert!(table.can_accept(id(0, 3)));
}

#[test]
fn placeholder_can_be_removed_but_not_resolved() {
    let mut table: Registry<u32> = Registry::new(Backend::Vulkan);
    let fid = table.prepare(Some(id(2, 1))).unwrap();
    let e = table.assign_error(fid);
    assert!(table.contains(e));
    assert_eq!(table.get(e), Err(InvalidResourceError { id: e }));
    assert!(table.remove(e));
    assert!(!table.contains(e));
}

#[test]
fn replace_and_swap_keep_the_id() {
    let mut table: Registry<String> = Registry::new(Backend::Vulkan);
    let fid = table.prepare(None).unwrap();
    let a = table.assign(fid, "one".to_string());
    table.replace(a, "two".to_string());
    assert_eq!(table.get(a).unwrap(), "two");
    let previous = table.swap(a, "three".to_string());
    assert_eq!(previous, "two");
    assert_eq!(table.get(a).unwrap(), "three");
}
