use cheat::modules::{initialize_modules, ModuleImage, ModuleLookup, ModuleRegistry};
use cheat::startup::{initialize_hooks, HookSite, HookTargets, StartupError};

const CREATE_MOVE: [u8; 8] = [0x48, 0x8B, 0xC4, 0x4C, 0x89, 0x48, 0x20, 0x55];
const PRESENT: [u8; 27] = [
    0x48, 0x89, 0x5C, 0x24, 0x08, 0x48, 0x89, 0x6C, 0x24, 0x10, 0x48, 0x89, 0x74, 0x24, 0x18,
    0x57, 0x41, 0x56, 0x41, 0x57, 0x48, 0x83, 0xEC, 0x20, 0x41, 0x8B, 0xE8,
];
const RESIZE: [u8; 25] = [
    0x48, 0x89, 0x5C, 0x24, 0x08, 0x48, 0x89, 0x6C, 0x24, 0x10, 0x48, 0x89, 0x74, 0x24, 0x18,
    0x57, 0x41, 0x56, 0x41, 0x57, 0x48, 0x83, 0xEC, 0x30, 0x44,
];

fn registry() -> ModuleRegistry {
    let mut reg = ModuleRegistry::new();
    let lookups = vec![
        ModuleLookup { name: "client.dll".to_string(), image: ModuleImage::new(0x10_0000, 64) },
        ModuleLookup {
            name: "gameoverlayrenderer64.dll".to_string(),
            image: ModuleImage::new(0x20_0000, 128),
        },
    ];
    initialize_modules(&mut reg, &lookups).unwrap();
    reg
}

fn images() -> (Vec<u8>, Vec<u8>) {
    let mut client = vec![0u8; 64];
    client[40..48].copy_from_slice(&CREATE_MOVE);
    let mut overlay = vec![0u8; 128];
    overlay[16..43].copy_from_slice(&PRESENT);
    overlay[64..89].copy_from_slice(&RESIZE);
    (client, overlay)
}

#[test]
fn locates_all_three_targets() {
    let reg = registry();
    let (client, overlay) = images();
    let c = reg.get("client.dll").unwrap();
    let o = reg.get("gameoverlayrenderer64.dll").unwrap();
    assert_eq!(
        initialize_hooks(c, &client, o, &overlay),
        Ok(HookTargets { create_move: 0x10_0028, present: 0x20_0010, resize_buffers: 0x20_0040 })
    );
}

#[test]
fn missing_create_move_stops_first() {
    let reg = registry();
    let (mut client, mut overlay) = images();
    client[41] = 0;
    overlay[70] = 0;
    let c = reg.get("client.dll").unwrap();
    let o = reg.get("gameoverlayrenderer64.dll").unwrap();
    assert_eq!(
        initialize_hooks(c, &client, o, &overlay),
        Err(StartupError::PatternNotFound { site: HookSite::CreateMove })
    );
}

#[test]
fn missing_resize_buffers_is_named() {
    let reg = registry();
    let (client, mut overlay) = images();
    overlay[64 + 23] = 0x20;
    let c = reg.get("client.dll").unwrap();
    let o = reg.get("gameoverlayrenderer64.dll").unwrap();
    assert_eq!(
        initialize_hooks(c, &client, o, &overlay),
        Err(StartupError::PatternNotFound { site: HookSite::ResizeBuffers })
    );
}
