use fulmen::blob::{Blob, BlobError, ErasedValue};
use fulmen::bundle::{BundleId, Bundles};
use fulmen::component::ComponentId;
use std::any::TypeId;
use fulmen::component::{Component, Resource, StorageType};
use fulmen::layout::Layout;
use fulmen::type_key::TypeKey;
use fulmen::world::World;
use std::any::Any;

/// A slot holding one value of any type.
struct Slot(Box<dyn Any>);

impl ErasedValue for Slot {
    fn wrap<T: 'static>(value: T) -> Self {
        Slot(Box::new(value))
    }

    fn peek<T: 'static>(&self) -> Option<&T> {
        self.0.downcast_ref::<T>()
    }

    fn peek_mut<T: 'static>(&mut self) -> Option<&mut T> {
        self.0.downcast_mut::<T>()
    }
}

#[derive(Default)]
struct TestCompA(pub u32);
impl TypeKey for TestCompA {
    fn type_key() -> TypeId {
        TypeId::of::<Self>()
    }

    fn needs_drop() -> bool {
        std::mem::needs_drop::<Self>()
    }
}
impl Component for TestCompA {
    const STORAGE_TYPE: StorageType = StorageType::Table;
}

#[derive(Default)]
struct TestCompB(pub u32);
impl TypeKey for TestCompB {
    fn type_key() -> TypeId {
        TypeId::of::<Self>()
    }

    fn needs_drop() -> bool {
        std::mem::needs_drop::<Self>()
    }
}
impl Component for TestCompB {
    const STORAGE_TYPE: StorageType = StorageType::Table;
}

#[derive(Default)]
struct TestCompC(pub u32);
impl TypeKey for TestCompC {
    fn type_key() -> TypeId {
        TypeId::of::<Self>()
    }

    fn needs_drop() -> bool {
        std::mem::needs_drop::<Self>()
    }
}
impl Component for TestCompC {
    const STORAGE_TYPE: StorageType = StorageType::SparseSet;
}

#[derive(Default)]
struct TestResA(pub u32);
impl TypeKey for TestResA {
    fn type_key() -> TypeId {
        TypeId::of::<Self>()
    }

    fn needs_drop() -> bool {
        std::mem::needs_drop::<Self>()
    }
}
impl Resource for TestResA {}

#[derive(Default)]
struct TestResB(pub u32);
impl TypeKey for TestResB {
    fn type_key() -> TypeId {
        TypeId::of::<Self>()
    }

    fn needs_drop() -> bool {
        std::mem::needs_drop::<Self>()
    }
}
impl Resource for TestResB {}

type TestWorld = World<Slot>;

#[test]
fn register_components() {
    let mut world = TestWorld::new();

    assert_eq!(0, world.register_component::<TestCompA>().index());
    assert_eq!(1, world.register_component::<TestCompB>().index());
    assert_eq!(2, world.register_component::<TestCompC>().index());

    assert_eq!(0, world.register_component::<TestCompA>().index());
}

#[test]
fn register_resources() {
    let mut world = TestWorld::new();

    assert_eq!(0, world.register_resource::<TestResA>().index());
    assert_eq!(1, world.register_resource::<TestResB>().index());

    assert_eq!(0, world.register_resource::<TestResA>().index());
}

#[test]
fn register_components_and_resources() {
    let mut world = TestWorld::new();

    assert_eq!(0, world.register_component::<TestCompA>().index());
    assert_eq!(1, world.register_resource::<TestResA>().index());
    assert_eq!(2, world.register_component::<TestCompB>().index());
    assert_eq!(3, world.register_resource::<TestResB>().index());
    assert_eq!(1, world.register_resource::<TestResA>().index());
}

#[test]
fn recover_registered_resources() {
    let mut world = TestWorld::new();

    let res = world.get_resource::<TestResA>();
    assert!(res.is_none(), "res isn't registered");

    assert_eq!(
        0,
        world.register_resource::<TestResA>().index(),
        "registered resource should have id 0 as 'get_resource' should not register unregistered types"
    );

    let res = world.get_resource::<TestResA>();
    assert!(res.is_none(), "res shouldn't be initialized");

    world.insert_resource(TestResA(6));
    let og_res = world.get_resource::<TestResA>();
    assert!(og_res.is_some(), "res should be initialized");
    assert_eq!(6, og_res.unwrap().0);

    world.init_resource::<TestResA>();
    let res = world.get_resource::<TestResA>();
    assert_eq!(6, res.unwrap().0);

    world.insert_resource(TestResA(1));
    let res = world.get_resource::<TestResA>();
    assert_eq!(1, res.unwrap().0);
}

#[test]
fn resource_mutation() {
    let mut world = TestWorld::new();

    world.init_resource::<TestResA>();

    let res = world.get_resource_mut::<TestResA>().unwrap();
    assert_eq!(TestCompA::default().0, res.0);

    res.0 = 10;
    assert_eq!(10, res.0);

    let res = world.get_resource_mut::<TestResA>().unwrap();
    assert_eq!(10, res.0);
}

#[test]
fn register_bundle_of_registered_components() {
    let mut world = TestWorld::new();

    _ = world.register_component::<TestCompA>();
    _ = world.register_component::<TestCompB>();
    _ = world.register_component::<TestCompC>();

    _ = world.register_bundle::<TestCompA>();
    _ = world.register_bundle::<TestCompB>();
    _ = world.register_bundle::<TestCompC>();
    _ = world.register_bundle::<(TestCompA, TestCompB)>();
    _ = world.register_bundle::<(TestCompB, TestCompC)>();
    _ = world.register_bundle::<(TestCompC, TestCompA)>();
    _ = world.register_bundle::<(TestCompA, (TestCompB, TestCompC))>();

    assert_eq!(3, world.components().len());
    assert_eq!(7, world.bundles().len());
}

#[test]
fn register_bundle_of_unregistered_components() {
    let mut world = TestWorld::new();

    _ = world.register_bundle::<TestCompA>();
    _ = world.register_bundle::<TestCompB>();
    _ = world.register_bundle::<TestCompC>();
    _ = world.register_bundle::<(TestCompA, TestCompB)>();
    _ = world.register_bundle::<(TestCompB, TestCompC)>();
    _ = world.register_bundle::<(TestCompC, TestCompA)>();
    _ = world.register_bundle::<(TestCompA, (TestCompB, TestCompC))>();

    assert_eq!(3, world.components().len());
    assert_eq!(7, world.bundles().len());
}

#[test]
fn test_resources() {
    let world = TestWorld::default();
    assert_eq!(0, world.components().len());
    assert_eq!(0, world.bundles().len());
}

#[test]
fn bundle_registration_is_idempotent() {
    let mut world = TestWorld::new();
    let first = world.register_bundle::<(TestCompA, TestCompB)>();
    let again = world.register_bundle::<(TestCompA, TestCompB)>();
    assert_eq!(first, again);
    assert_eq!(0, first.index());
    let other = world.register_bundle::<(TestCompB, TestCompA)>();
    assert_eq!(1, other.index());
    let info = world.bundles().get(first).unwrap();
    assert_eq!(first, info.id());
    let ids: Vec<usize> = info.component_ids().iter().map(|c| c.index()).collect();
    assert_eq!(vec![0, 1], ids);
    let info = world.bundles().get(other).unwrap();
    let ids: Vec<usize> = info.component_ids().iter().map(|c| c.index()).collect();
    assert_eq!(vec![1, 0], ids);
}

#[test]
fn component_and_resource_ids_are_looked_up() {
    let mut world = TestWorld::new();
    assert_eq!(None, world.get_component_id::<TestCompA>());
    assert_eq!(None, world.get_resource_id::<TestResA>());
    let c = world.register_component::<TestCompA>();
    let r = world.register_resource::<TestResA>();
    assert_eq!(Some(c), world.get_component_id::<TestCompA>());
    assert_eq!(Some(r), world.get_resource_id::<TestResA>());
    // Component and resource registrations are kept apart.
    assert_eq!(None, world.get_component_id::<TestCompB>());
    assert_eq!(None, world.get_resource_id::<TestResB>());
    let info = world.components().get_info(r).unwrap();
    assert_eq!(r, info.id());
    assert_eq!(Layout::new::<TestResA>(), info.layout());
}

#[test]
fn init_resource_uses_default_and_keeps_value() {
    let mut world = TestWorld::new();
    world.init_resource::<TestResB>();
    assert_eq!(0, world.get_resource::<TestResB>().unwrap().0);
    world.get_resource_mut::<TestResB>().unwrap().0 = 4;
    world.init_resource::<TestResB>();
    assert_eq!(4, world.get_resource::<TestResB>().unwrap().0);
    assert!(world.get_resource::<TestResA>().is_none());
}

#[test]
fn blob_new_blob() {
    let blob = Blob::<Slot>::new::<&str>();
    assert_eq!(false, blob.has_value());
    let blob = Blob::<Slot>::new::<u32>();
    assert_eq!(false, blob.has_value());
}

#[test]
fn blob_new_blob_zst() {
    let blob = Blob::<Slot>::new::<()>();
    assert_eq!(false, blob.has_value())
}

#[test]
fn with_layout_unchecked() {
    let layout = Layout::new::<u32>();
    let blob = Blob::<Slot>::with_layout_unchecked(layout, false);
    assert_eq!(false, blob.has_value());
}

struct PanicOnDrop;
impl Drop for PanicOnDrop {
    fn drop(&mut self) {
        panic!("A 'PanicOnDrop' was dropped");
    }
}

#[test]
fn new_no_drop() {
    _ = Blob::<Slot>::new::<PanicOnDrop>();
}

#[test]
#[should_panic(expected = "A 'PanicOnDrop' was dropped")]
fn new_drop() {
    let mut blob = Blob::<Slot>::new::<PanicOnDrop>();
    blob.insert(PanicOnDrop);
}

#[test]
fn replace_ptr() {
    let mut blob = Blob::<Slot>::from(100_u32);
    assert_eq!(&100, blob.downcast_ref::<u32>().unwrap());

    blob.insert_data(Slot::wrap(0_u32));
    assert_ne!(&100, blob.downcast_ref::<u32>().unwrap());
    assert_eq!(&0, blob.downcast_ref::<u32>().unwrap());
}

#[test]
fn downcast_zst() {
    let blob = Blob::<Slot>::from(());
    assert_eq!(true, blob.has_value());
    _ = blob.downcast_ref::<()>().unwrap();
}

#[test]
fn blob_downcast_errors() {
    let blob = Blob::<Slot>::new::<u32>();
    assert_eq!(Err(BlobError::Empty), blob.downcast_ref::<u32>().map(|v| *v));
    assert_eq!(Err(BlobError::LayoutMistmatch), blob.downcast_ref::<u64>().map(|v| *v));
    // Same layout, other type
    let blob = Blob::<Slot>::from(7_u32);
    assert_eq!(Err(BlobError::LayoutMistmatch), blob.downcast_ref::<i32>().map(|v| *v));
    assert_eq!(Ok(7), blob.downcast_ref::<u32>().map(|v| *v));
}

#[test]
fn blob_downcast_mut_changes_value() {
    let mut blob = Blob::<Slot>::from(1_u64);
    *blob.downcast_mut::<u64>().unwrap() = 5;
    assert_eq!(Ok(5), blob.downcast_ref::<u64>().map(|v| *v));
    let mut empty = Blob::<Slot>::new::<u64>();
    assert_eq!(Err(BlobError::Empty), empty.downcast_mut::<u64>().map(|v| *v));
    assert_eq!(Err(BlobError::LayoutMistmatch), empty.downcast_mut::<u8>().map(|v| *v));
}

#[test]
fn blob_from_and_layout() {
    let mut blob = Blob::<Slot>::from(3_u16);
    assert_eq!(Layout::new::<u16>(), blob.layout());
    assert!(blob.check_layout::<u16>());
    assert!(!blob.check_layout::<u32>());
    blob.insert(9_u16);
    assert_eq!(&9, blob.downcast_ref::<u16>().unwrap());
}

#[test]
fn register_bundle_ids_exact() {
    let mut bundles = Bundles::new();
    let ab = TypeId::of::<(TestCompA, TestCompB)>();
    let ca = TypeId::of::<(TestCompC, TestCompA)>();
    let dup = TypeId::of::<(TestCompA, TestCompA)>();

    assert_eq!(Some(BundleId(0)), bundles.register_bundle_ids(ab, vec![ComponentId(0), ComponentId(1)]));
    assert_eq!(Some(BundleId(1)), bundles.register_bundle_ids(ca, vec![ComponentId(2), ComponentId(0)]));
    // A known type gets its id back, whatever ids are passed.
    assert_eq!(Some(BundleId(0)), bundles.register_bundle_ids(ab, vec![]));
    // Repeated component ids are refused and nothing is registered.
    assert_eq!(None, bundles.register_bundle_ids(dup, vec![ComponentId(0), ComponentId(0)]));
    assert_eq!(2, bundles.len());
    assert_eq!(None, bundles.get_id(dup));
    assert_eq!(Some(BundleId(1)), bundles.get_id(ca));
    let ids: Vec<usize> = bundles.get(BundleId(1)).unwrap().component_ids().iter().map(|c| c.index()).collect();
    assert_eq!(vec![2, 0], ids);
    assert!(bundles.get(BundleId(2)).is_none());
}

#[test]
fn nested_bundle_ids_in_declaration_order() {
    let mut world = TestWorld::new();
    assert_eq!(0, world.register_component::<TestCompA>().index());
    let id = world.register_bundle::<(TestCompC, (TestCompA, TestCompB))>();
    let ids: Vec<usize> = world.bundles().get(id).unwrap().component_ids().iter().map(|c| c.index()).collect();
    assert_eq!(vec![1, 0, 2], ids);
    assert_eq!(3, world.components().len());
}

#[test]
fn resource_slot_holds_the_inserted_value() {
    let mut world = TestWorld::new();
    assert!(world.resource_slot::<TestResA>().is_none());
    world.register_resource::<TestResA>();
    assert!(world.resource_slot::<TestResA>().is_none());
    world.insert_resource(TestResA(6));
    let slot = world.resource_slot::<TestResA>().unwrap();
    assert_eq!(6, slot.peek::<TestResA>().unwrap().0);
}
