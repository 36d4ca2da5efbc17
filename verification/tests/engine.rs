use fulmen::config::{AppInfo, LveApplicationBuilder};
use fulmen::device::{
    score_pdevice_with_capabilities, select_physical_device, DeviceKind, DeviceProperties,
    QueueFamily,
};
use fulmen::events::{next_action, Key, KeyState, LoopAction, LoopEvent};
use fulmen::hash::{NoOpHash, NoOpHasher};
use std::any::TypeId;
use std::collections::HashMap;
use std::hash::{BuildHasher, Hasher};

fn family(graphics: bool, surface_support: bool) -> QueueFamily {
    QueueFamily { graphics, surface_support }
}

fn device(kind: DeviceKind, extent: u32, families: Vec<QueueFamily>) -> DeviceProperties {
    DeviceProperties { kind, max_image_dimension3_d: extent, queue_families: families }
}

#[test]
fn hasher_keeps_written_u64() {
    let mut h = NoOpHash.build_hasher();
    assert_eq!(0, h.finish());
    h.write_u64(0xdead_beef);
    assert_eq!(0xdead_beef, h.finish());
}

#[test]
fn hasher_folds_bytes() {
    let mut h = NoOpHasher::default();
    h.write(&[1, 2]);
    assert_eq!(0x0102, h.finish());
    // Each byte rotates the state left by eight bits before being added.
    let mut h = NoOpHasher::default();
    h.write_u64(0xff00_0000_0000_0000);
    h.write(&[3]);
    assert_eq!(0x0000_0000_0000_00ff + 3, h.finish());
}

#[test]
fn hasher_writes_concatenate() {
    let mut a = NoOpHasher::default();
    a.write(&[9, 8, 7]);
    a.write(&[6, 5]);
    let mut b = NoOpHasher::default();
    b.write(&[9, 8, 7, 6, 5]);
    assert_eq!(a.finish(), b.finish());
}

#[test]
fn type_id_map_with_no_op_hash() {
    let mut map: HashMap<TypeId, u32, NoOpHash> = HashMap::with_hasher(NoOpHash);
    map.insert(TypeId::of::<u8>(), 1);
    map.insert(TypeId::of::<u16>(), 2);
    assert_eq!(Some(&1), map.get(&TypeId::of::<u8>()));
    assert_eq!(Some(&2), map.get(&TypeId::of::<u16>()));
    assert_eq!(None, map.get(&TypeId::of::<u32>()));
}

#[test]
fn score_by_kind_and_extent() {
    let d = device(DeviceKind::DiscreteGpu, 2048, vec![family(true, true)]);
    assert_eq!(Some((3048, 0)), score_pdevice_with_capabilities(&d));
    let d = device(DeviceKind::IntegratedGpu, 2048, vec![family(true, true)]);
    assert_eq!(Some((1798, 0)), score_pdevice_with_capabilities(&d));
    let d = device(DeviceKind::Cpu, 2048, vec![family(true, true)]);
    assert_eq!(Some((1048, 0)), score_pdevice_with_capabilities(&d));
    let d = device(DeviceKind::Other, 2048, vec![family(true, true)]);
    assert_eq!(Some((2048, 0)), score_pdevice_with_capabilities(&d));
}

#[test]
fn score_uses_first_usable_family() {
    let d = device(
        DeviceKind::DiscreteGpu,
        16,
        vec![family(false, true), family(true, false), family(true, true), family(true, true)],
    );
    assert_eq!(Some((1016, 2)), score_pdevice_with_capabilities(&d));
    let d = device(DeviceKind::DiscreteGpu, 16, vec![family(false, true), family(true, false)]);
    assert_eq!(None, score_pdevice_with_capabilities(&d));
    let d = device(DeviceKind::DiscreteGpu, 16, vec![]);
    assert_eq!(None, score_pdevice_with_capabilities(&d));
}

#[test]
fn select_best_device() {
    assert_eq!(None, select_physical_device(&[]));
    let devices = vec![
        device(DeviceKind::IntegratedGpu, 2048, vec![family(true, true)]),
        device(DeviceKind::DiscreteGpu, 2048, vec![family(false, false), family(true, true)]),
        device(DeviceKind::DiscreteGpu, 8192, vec![family(false, false)]),
        device(DeviceKind::Cpu, 256, vec![family(true, true)]),
    ];
    assert_eq!(Some((1, 1)), select_physical_device(&devices));
}

#[test]
fn select_last_of_equal_scores() {
    let devices = vec![
        device(DeviceKind::Other, 100, vec![family(true, true)]),
        device(DeviceKind::Other, 100, vec![family(false, true), family(true, true)]),
        device(DeviceKind::Cpu, 100, vec![family(true, true)]),
    ];
    assert_eq!(Some((1, 1)), select_physical_device(&devices));
}

#[test]
fn event_loop_actions() {
    assert_eq!(LoopAction::Exit, next_action(LoopEvent::CloseRequested));
    assert_eq!(
        LoopAction::Exit,
        next_action(LoopEvent::Keyboard { state: KeyState::Pressed, key: Some(Key::Escape) })
    );
    assert_eq!(
        LoopAction::Wait,
        next_action(LoopEvent::Keyboard { state: KeyState::Released, key: Some(Key::Escape) })
    );
    assert_eq!(
        LoopAction::Greet,
        next_action(LoopEvent::Keyboard { state: KeyState::Pressed, key: Some(Key::H) })
    );
    assert_eq!(
        LoopAction::Wait,
        next_action(LoopEvent::Keyboard { state: KeyState::Pressed, key: None })
    );
    assert_eq!(
        LoopAction::Wait,
        next_action(LoopEvent::Keyboard { state: KeyState::Pressed, key: Some(Key::Other) })
    );
    assert_eq!(LoopAction::RequestRedraw, next_action(LoopEvent::MainEventsCleared));
    assert_eq!(LoopAction::Wait, next_action(LoopEvent::RedrawRequested));
    assert_eq!(LoopAction::Wait, next_action(LoopEvent::OtherWindowEvent));
    assert_eq!(LoopAction::Wait, next_action(LoopEvent::Other));
}

#[test]
fn application_builder_defaults_and_settings() {
    let builder = LveApplicationBuilder::default();
    assert_eq!("LveEngine App", builder.window_name());
    assert_eq!((600, 500), builder.window_size());
    assert!(builder.window_resizable());
    assert_eq!(None, builder.app_name());
    assert_eq!(None, builder.app_version());

    let builder = builder
        .with_window_name("Demo")
        .with_window_size(800, 600)
        .with_resizable_window(false);
    assert_eq!("Demo", builder.window_name());
    assert_eq!((800, 600), builder.window_size());
    assert!(!builder.window_resizable());
}

#[test]
fn app_info_default() {
    let info = AppInfo::default();
    assert_eq!(None, info.app_name);
    assert_eq!(None, info.app_version);
    assert!(!info.resizable_window);
}
