//! The process around the layer: who takes part, what is logged, dumped and watched.

use neural_forge_layer::activation::{
    after_device_request, env_flag, extended_names, layer_enabled, names_extension, plan_device, DeviceStep,
    ExtendedDevices, EXTERNAL_MEMORY_HOST_EXTENSION, LAYER_NAME,
};
use neural_forge_layer::breadcrumbs::{dump, mark, Ring, CAPACITY};
use neural_forge_layer::dump::{captures_dir, opaque_rgba, write_pair};
use neural_forge_layer::hotkey::{PollStep, Poller, POLL_INTERVAL};
use neural_forge_layer::logging::{log, log_file, Throttle};
use neural_forge_layer::ownership::{
    allowed, arguments, basename, eligible, lock_is_safe, lock_path, process_name, shown_name, ClaimStep, Lease,
};
use neural_forge_layer::shader::shader_words;
use neural_forge_layer::text::{trim, white_space};

#[test]
fn launchers_cannot_claim_even_when_explicitly_targeted() {
    for exe in [
        "explorer.exe",
        "Xalia.exe",
        "Launcher.exe",
        "SocialClubHelper.exe",
        "RockstarService.exe",
        "Rockstar Games Launcher.exe",
        "Social Club Helper.exe",
    ] {
        let args: Vec<String> = vec!["wine64-preloader".into(), format!("C:\\Rockstar Games\\{exe}")];
        assert!(!allowed(&args, None));
        assert!(!allowed(&args, Some(exe)));
    }
    assert!(allowed(&["Z:\\games\\GTA5_Enhanced.exe".into()], Some("GTA5_Enhanced.exe")));
    assert!(!allowed(&["another-game.exe".into()], Some("GTA5_Enhanced.exe")));
    assert!(!allowed(&[], None));
}

#[test]
fn a_target_list_names_several_games() {
    let args: Vec<String> = vec!["/usr/bin/wine".into(), "Z:/games/Game.EXE".into()];
    assert!(allowed(&args, Some("other.exe,\u{3000} C:\\x\\game.exe ,third")));
    assert!(!allowed(&args, Some("other.exe,game.exe2")));
    assert!(!allowed(&args, Some("")));
    assert!(allowed(&["/opt/native-game".into()], Some("native-game")));
}

#[test]
fn every_excluded_name_is_excluded() {
    for exe in [
        "launcherpatcher.exe",
        "rockstarlauncher.exe",
        "socialclub.exe",
        "steam.exe",
        "steamwebhelper.exe",
        "gameoverlayui.exe",
        "neural-forge-helper.exe",
        "neuralforge-helper.exe",
        "winedevice.exe",
        "services.exe",
        "rock-star_ thing",
    ] {
        assert!(!allowed(&[exe.into()], None), "{exe}");
    }
    assert!(allowed(&["steam2.exe".into()], None));
}

#[test]
fn names_are_the_last_part_of_a_path_in_small_letters() {
    assert_eq!(basename("C:\\Games/Foo\\BAR.exe"), "bar.exe");
    assert_eq!(basename("\u{c4}BC"), "\u{c4}bc");
    assert_eq!(basename("dir/"), "");
    assert_eq!(basename(""), "");
}

#[test]
fn a_command_line_is_parted_at_zeros() {
    let line = b"wine64-preloader\0\0C:\\Games\\Foo.exe\0-x\0";
    assert_eq!(arguments(line), ["wine64-preloader", "C:\\Games\\Foo.exe", "-x"]);
    assert!(eligible(line, None));
    assert!(eligible(line, Some("foo.exe")));
    assert!(!eligible(line, Some("bar.exe")));
    assert!(!eligible(b"", None));
    assert_eq!(process_name(line), "Foo.exe");
    assert_eq!(process_name(b""), "");
    assert_eq!(shown_name(&["/a/b/Game".into(), "x".into()]), "Game");
    // What is no UTF-8 is replaced.
    assert_eq!(arguments(b"a\xffb"), ["a\u{fffd}b"]);
}

#[test]
fn white_space_is_unicodes() {
    for n in 0..=0x10ffffu32 {
        if let Some(c) = char::from_u32(n) {
            assert_eq!(white_space(c), c.is_whitespace(), "{n:x}");
        }
    }
    assert_eq!(trim("\t a b\u{2003}\n"), "a b");
    assert_eq!(trim("  "), "");
    assert_eq!(trim(""), "");
}

#[test]
fn a_lease_is_kept_for_one_channel() {
    let mut lease = Lease::new();
    assert_eq!(lease.claim(false, "/dev/shm/a"), ClaimStep::Answer { granted: false });
    assert_eq!(lease.claim(true, "/dev/shm/a"), ClaimStep::Lock);
    assert!(!lease.locked("/dev/shm/a", false));
    assert_eq!(lease.claim(true, "/dev/shm/a"), ClaimStep::Lock);
    assert!(lease.locked("/dev/shm/a", true));
    assert_eq!(lease.claim(true, "/dev/shm/a"), ClaimStep::Answer { granted: true });
    assert_eq!(lease.claim(true, "/dev/shm/b"), ClaimStep::Answer { granted: false });
    assert_eq!(lease.claim(false, "/dev/shm/a"), ClaimStep::Answer { granted: false });
    assert_eq!(lock_path("/dev/shm/a"), "/dev/shm/a.owner");
}

#[test]
fn a_lock_file_must_be_private() {
    assert!(lock_is_safe(true, 1000, 1000, 0o100600));
    assert!(!lock_is_safe(false, 1000, 1000, 0o600));
    assert!(!lock_is_safe(true, 0, 1000, 0o600));
    assert!(!lock_is_safe(true, 1000, 1000, 0o640));
    assert!(!lock_is_safe(true, 1000, 1000, 0o602));
}

#[test]
fn marks_are_read_back_newest_first() {
    let mut ring = Ring::new();
    mark(&mut ring, "test:one:9f3a", 10);
    mark(&mut ring, "test:two:9f3a", 30);
    let report = dump(&ring, "test", 40);
    assert_eq!(report.lines[0].stage, "test:two:9f3a");
    assert_eq!(report.lines[0].age, 10);
    assert_eq!(report.lines[1].stage, "test:one:9f3a");
    assert_eq!(report.lines[1].age, 30);
    assert_eq!(report.lines.len(), 2);
}

#[test]
fn dump_does_not_panic_on_an_empty_or_partial_ring() {
    let mut ring = Ring::new();
    let report = dump(&ring, "unit test", 0);
    assert_eq!(report.heading, "[breadcrumbs] unit test -- last 0 stage marker(s), newest first:");
    assert!(report.lines.is_empty());
    mark(&mut ring, "later", 100);
    assert_eq!(dump(&ring, "unit test", 50).lines[0].age, 0);
}

#[test]
fn a_full_ring_gives_up_its_oldest_marks() {
    let mut ring = Ring::new();
    for i in 0..CAPACITY as u64 + 10 {
        mark(&mut ring, "stage", i);
    }
    let report = dump(&ring, "test", CAPACITY as u64 + 10);
    assert_eq!(report.heading, "[breadcrumbs] test -- last 64 stage marker(s), newest first:");
    assert_eq!(report.lines.len(), CAPACITY);
    for (i, line) in report.lines.iter().enumerate() {
        assert_eq!(line.age, i as u64 + 1);
    }
}

#[test]
fn every_sixty_fourth_line_is_flushed() {
    let mut throttle = Throttle::new();
    for i in 0..200u32 {
        let line = log(&mut throttle, "hello");
        assert_eq!(line.text, "[neuralforge-layer] hello\n");
        assert_eq!(line.flush, i % 64 == 0);
    }
    let mut last = Throttle { lines: u32::MAX };
    assert!(!log(&mut last, "").flush);
    assert_eq!(last.lines, 0);
    assert!(log(&mut last, "").flush);
}

#[test]
fn the_log_goes_to_a_file_of_the_layers_own() {
    assert_eq!(log_file(Some("/tmp/x.log"), true), Some("/tmp/x.log".to_string()));
    assert_eq!(log_file(Some("/tmp/x.log"), false), None);
    assert_eq!(log_file(Some(""), true), None);
    assert_eq!(log_file(None, true), None);
}

#[test]
fn a_held_key_is_reported_once_and_again_after_it_was_let_go() {
    let mut keys = [0u8; 32];
    let mut p = Poller::new();
    assert_eq!(p.poll(88, 0), PollStep::Connect);
    assert_eq!(p.connect(true), PollStep::Query);
    // Code 88 stands at place 96: byte 12, bit 0.
    keys[12] = 1;
    assert!(p.pressed(88, &keys));
    assert!(!p.pressed(88, &keys));
    keys[12] = 0;
    assert!(!p.pressed(88, &keys));
    keys[12] = 0xff;
    assert!(p.pressed(88, &keys));
    // The last code has the last bit.
    let mut last = [0u8; 32];
    last[31] = 0x80;
    let mut q = Poller::new();
    assert!(q.pressed(247, &last));
}

#[test]
fn the_key_map_is_not_asked_for_too_often() {
    let mut p = Poller::new();
    p.connected = true;
    assert_eq!(p.poll(5, 1_000), PollStep::Query);
    assert_eq!(p.poll(5, 1_000 + POLL_INTERVAL - 1), PollStep::Skip);
    assert_eq!(p.poll(5, 1_000 + POLL_INTERVAL), PollStep::Query);
    // A clock that runs back counts as no time at all.
    assert_eq!(p.poll(5, 0), PollStep::Skip);
    p.was_pressed = true;
    assert_eq!(p.poll(0, 9 * POLL_INTERVAL), PollStep::Skip);
    assert!(!p.was_pressed);
    assert_eq!(p.poll(248, 9 * POLL_INTERVAL), PollStep::Skip);
    let mut q = Poller::new();
    assert_eq!(q.poll(5, 0), PollStep::Connect);
    assert_eq!(q.connect(false), PollStep::Skip);
    assert!(!q.connected);
}

#[test]
fn the_layer_is_off_unless_it_is_switched_on() {
    assert_eq!(LAYER_NAME, "VK_LAYER_neuralforge_neural");
    assert!(layer_enabled(Some("1"), None));
    assert!(!layer_enabled(None, None));
    assert!(!layer_enabled(Some("true"), None));
    assert!(!layer_enabled(Some("1"), Some("1")));
    assert!(layer_enabled(Some("1"), Some("0")));
    assert!(!env_flag(Some("")));
}

#[test]
fn the_extension_is_added_only_where_it_is_safe() {
    let swapchain = vec!["VK_KHR_swapchain".to_string()];
    let both = vec!["VK_KHR_swapchain".to_string(), EXTERNAL_MEMORY_HOST_EXTENSION.to_string()];
    assert_eq!(plan_device(true, &swapchain, Some(&both), true), DeviceStep::Extended);
    assert_eq!(plan_device(false, &swapchain, Some(&both), true), DeviceStep::PassOn);
    assert_eq!(plan_device(true, &both, Some(&both), true), DeviceStep::PassOn);
    assert_eq!(plan_device(true, &swapchain, Some(&swapchain), true), DeviceStep::PassOn);
    assert_eq!(plan_device(true, &swapchain, None, true), DeviceStep::PassOn);
    assert_eq!(plan_device(true, &swapchain, Some(&both), false), DeviceStep::PassOn);
    assert_eq!(plan_device(true, &[], Some(&both), true), DeviceStep::Extended);
    assert_eq!(extended_names(&swapchain), both);
    assert!(names_extension(&both, "VK_KHR_swapchain"));
}

#[test]
fn a_refused_extension_costs_no_device() {
    assert_eq!(after_device_request(DeviceStep::Extended, 0), DeviceStep::CreatedExtended);
    assert_eq!(after_device_request(DeviceStep::Extended, -7), DeviceStep::Plain);
    assert_eq!(after_device_request(DeviceStep::Plain, 0), DeviceStep::Answered { result: 0 });
    assert_eq!(after_device_request(DeviceStep::Plain, -3), DeviceStep::Answered { result: -3 });
    let mut devices = ExtendedDevices::new();
    devices.note(7);
    assert!(!devices.take_external_memory_host_enabled(8));
    assert!(devices.take_external_memory_host_enabled(7));
    assert!(!devices.take_external_memory_host_enabled(7));
}

#[test]
fn pictures_go_to_the_data_directory() {
    assert_eq!(captures_dir(Some("/data"), Some("/home/x")), "/data/neuralforge/captures");
    assert_eq!(captures_dir(Some("/data/"), None), "/data/neuralforge/captures");
    assert_eq!(captures_dir(Some(""), Some("/home/x")), "/home/x/.local/share/neuralforge/captures");
    assert_eq!(captures_dir(None, None), "//.local/share/neuralforge/captures");
}

#[test]
fn pictures_are_opaque_and_have_red_first() {
    let rgb = [1, 2, 3, 0, 4, 5, 6, 7];
    let bgr = [3, 2, 1, 0, 6, 5, 4, 7];
    assert_eq!(opaque_rgba(&rgb, false), [1, 2, 3, 255, 4, 5, 6, 255]);
    assert_eq!(opaque_rgba(&bgr, true), opaque_rgba(&rgb, false));
    assert_eq!(opaque_rgba(&[9, 8, 7, 6, 5, 4], true), [7, 8, 9, 255, 5, 4]);
    assert!(opaque_rgba(&[], true).is_empty());
}

fn decoded(bytes: &[u8]) -> (u32, u32, Vec<u8>) {
    let mut reader = png::Decoder::new(bytes).read_info().unwrap();
    let mut pixels = vec![0; reader.output_buffer_size()];
    let info = reader.next_frame(&mut pixels).unwrap();
    assert_eq!(info.color_type, png::ColorType::Rgba);
    assert_eq!(info.bit_depth, png::BitDepth::Eight);
    (info.width, info.height, pixels)
}

#[test]
fn a_pair_of_pictures_is_written_as_png() {
    let before: Vec<u8> = (0..2 * 3 * 4).map(|i| i as u8).collect();
    let after: Vec<u8> = (0..2 * 3 * 4).map(|i| 200 - i as u8).collect();
    let (first, second) = write_pair(&before, &after, 2, 3, true, "/x", "123");
    assert_eq!(first.path, "/x/123-original.png");
    assert_eq!(second.path, "/x/123-composited.png");
    assert!(first.ok && second.ok);
    assert_eq!(decoded(&first.bytes), (2, 3, opaque_rgba(&before, true)));
    assert_eq!(decoded(&second.bytes), (2, 3, opaque_rgba(&after, true)));
}

#[test]
fn a_picture_of_the_wrong_size_is_reported() {
    let frame = [0u8; 16];
    assert!(write_pair(&frame, &frame, 2, 2, false, "/x", "s").0.ok);
    assert!(!write_pair(&frame, &frame[..12], 2, 2, false, "/x", "s").1.ok);
    assert!(!write_pair(&[], &[], 0, 2, false, "/x", "s").0.ok);
    assert!(!write_pair(&[], &[], 2, 0, false, "/x", "s").0.ok);
}

#[test]
fn shaders_are_read_in_either_byte_order() {
    let little = [0x03, 0x02, 0x23, 0x07, 0x01, 0x02, 0x03, 0x04];
    let big = [0x07, 0x23, 0x02, 0x03, 0x04, 0x03, 0x02, 0x01];
    assert_eq!(shader_words(&little), Some(vec![0x0723_0203, 0x0403_0201]));
    assert_eq!(shader_words(&big), Some(vec![0x0723_0203, 0x0403_0201]));
    assert_eq!(shader_words(&little[..7]), None);
    assert_eq!(shader_words(&[1, 2, 3, 4]), None);
    assert_eq!(shader_words(&[]), None);
}
