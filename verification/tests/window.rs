use waytinier::bytes::read_u32_le;
use waytinier::display::Display;
use waytinier::drm::{
    drm_iowr, fourcc_code, fourcc_mod_code, ioc, iowr, DrmFormatModVendor,
    DRM_FORMAT_MOD_LINEAR, DRM_IOCTL_MODE_CREATE_DUMB, MODE_CREATE_DUMB_SIZE,
};
use waytinier::errors::{ExpectRc, WaylandError};
use waytinier::facade::{
    present_frame, read_pool_data, spawn_window, window_set_app_id, window_set_title, work_step,
    WorkStep,
};
use waytinier::god::God;
use waytinier::kind::WaylandObjectKind;
use waytinier::objects::WaylandObject;
use waytinier::shm::{PixelFormat, SharedMemory};
use waytinier::surface::Surface;
use waytinier::wire::{parse_u32, MessageManager, QueueEntry};
use waytinier::{get_dbug, DebugLevel, LogConfig};

fn mk_frame(id: u32, opcode: u16, payload: &[u8]) -> Vec<u8> {
    let size = (8 + payload.len()) as u32;
    let mut v = id.to_le_bytes().to_vec();
    v.extend(((size << 16) | opcode as u32).to_le_bytes());
    v.extend(payload);
    v
}

fn wire_str(s: &str) -> Vec<u8> {
    let mut v = ((s.len() + 1) as u32).to_le_bytes().to_vec();
    v.extend(s.as_bytes());
    v.push(0);
    while v.len() % 4 != 0 {
        v.push(0);
    }
    v
}

/// A god whose registry advertises everything a window needs, with the
/// compositor and wl_shm already bound.
fn staged_window() -> (God, waytinier::facade::TopLevelWindow, u32) {
    let mut god = God::new_default();
    let display_id = Display::new(&mut god);
    let display = Display { id: display_id };
    let registry_id = display.make_registry(&mut god);
    let mut stream: Vec<u8> = Vec::new();
    for (name, iface, ver) in
        [(1u32, "wl_compositor", 5u32), (2, "wl_shm", 1), (3, "xdg_wm_base", 1)]
    {
        let mut payload = name.to_le_bytes().to_vec();
        payload.extend(wire_str(iface));
        payload.extend(ver.to_le_bytes());
        stream.extend(mk_frame(registry_id, 0, &payload));
    }
    god.handle_events(&stream, stream.len(), &[]).unwrap();
    let compositor_id =
        waytinier::compositor::Compositor::new_bound(&mut god, registry_id).unwrap();
    let shm_id = SharedMemory::new_bound_initialized(&mut god, registry_id).unwrap();
    let win = spawn_window(
        &mut god,
        registry_id,
        compositor_id,
        shm_id,
        800,
        600,
        5,
        String::from("wl-shm-test"),
    )
    .unwrap();
    (god, win, registry_id)
}

#[test]
fn close_event_finishes_work_without_a_new_frame() {
    let (mut god, mut win, _) = staged_window();
    let stream = mk_frame(win.xdg_toplevel, 1, &[]);
    god.handle_events(&stream, stream.len(), &[]).unwrap();
    let sent = god.wlmm.outgoing.len();
    let queued = god.wlmm.q.len();
    let step = work_step(&mut god, &mut win).unwrap();
    assert_eq!(step, WorkStep::Finished);
    assert_eq!(god.wlmm.outgoing.len(), sent);
    assert_eq!(god.wlmm.q.len(), queued);
}

#[test]
fn close_flag_stays_set() {
    let (mut god, win, _) = staged_window();
    let mut stream = mk_frame(win.xdg_toplevel, 1, &[]);
    // a later configure does not clear the latched flag
    let mut payload = 0i32.to_le_bytes().to_vec();
    payload.extend(0i32.to_le_bytes());
    payload.extend(0u32.to_le_bytes());
    stream.extend(mk_frame(win.xdg_toplevel, 0, &payload));
    god.handle_events(&stream, stream.len(), &[]).unwrap();
    match god.wlim.find_obj_by_id(win.xdg_toplevel).unwrap() {
        WaylandObject::XdgTopLevel(t) => assert!(t.close_requested),
        _ => panic!("toplevel expected"),
    }
}

#[test]
fn window_waits_for_configure_then_attaches_then_renders() {
    let (mut god, mut win, _) = staged_window();
    assert_eq!(work_step(&mut god, &mut win).unwrap(), WorkStep::AwaitingConfigure);

    // toplevel configure with a size, then xdg_surface configure
    let mut payload = 640i32.to_le_bytes().to_vec();
    payload.extend(480i32.to_le_bytes());
    payload.extend(0u32.to_le_bytes());
    let mut stream = mk_frame(win.xdg_toplevel, 0, &payload);
    stream.extend(mk_frame(win.xdg_surface, 0, &7u32.to_le_bytes()));
    god.handle_events(&stream, stream.len(), &[]).unwrap();

    assert_eq!(work_step(&mut god, &mut win).unwrap(), WorkStep::BufferAttached);
    match god.wlim.find_obj_by_id(win.surface).unwrap() {
        WaylandObject::Surface(s) => {
            assert!(s.attached_buf.is_some());
            assert_eq!((s.w, s.h), (640, 480));
        },
        _ => panic!("surface expected"),
    }

    // next pass: no callback pending yet, so a render is requested
    let step = work_step(&mut god, &mut win).unwrap();
    match step {
        WorkStep::RenderFrame(ss) => {
            assert_eq!((ss.w, ss.h), (640, 480));
            assert_eq!(ss.frame, 1);
        },
        other => panic!("expected a render request, got {:?}", other),
    }
    // exactly one pending frame callback is recorded on the surface
    let cb_id = match god.wlim.find_obj_by_id(win.surface).unwrap() {
        WaylandObject::Surface(s) => s.frame_cb.unwrap(),
        _ => panic!("surface expected"),
    };
    present_frame(&mut god, &win).unwrap();

    // while the callback is pending, the loop reports not-ready
    assert_eq!(work_step(&mut god, &mut win).unwrap(), WorkStep::NotReady);

    // the frame-done event releases the next render
    let stream = mk_frame(cb_id, 0, &0u32.to_le_bytes());
    god.handle_events(&stream, stream.len(), &[]).unwrap();
    let step = work_step(&mut god, &mut win).unwrap();
    match step {
        WorkStep::RenderFrame(ss) => assert_eq!(ss.frame, 2),
        other => panic!("expected a render request, got {:?}", other),
    }
    let cb2 = match god.wlim.find_obj_by_id(win.surface).unwrap() {
        WaylandObject::Surface(s) => s.frame_cb.unwrap(),
        _ => panic!("surface expected"),
    };
    assert_ne!(cb2, cb_id);
}

#[test]
fn pool_pixels_round_trip_through_the_facade() {
    let (mut god, win, _) = staged_window();
    let data = read_pool_data(&god, win.pool).unwrap();
    assert_eq!(data.len(), 800 * 600 * 4);
    let mut frame = data.clone();
    frame[0] = 0xAB;
    waytinier::facade::write_pool_data(&mut god, win.pool, &frame).unwrap();
    let back = read_pool_data(&god, win.pool).unwrap();
    assert_eq!(back[0], 0xAB);
    // a frame of the wrong length is refused
    assert!(waytinier::facade::write_pool_data(&mut god, win.pool, &[1, 2, 3]).is_err());
}

#[test]
fn titles_and_app_ids_are_queued() {
    let (mut god, win, _) = staged_window();
    let before = god.wlmm.q.len();
    window_set_title(&mut god, win.xdg_toplevel, "a window").unwrap();
    window_set_app_id(&mut god, win.xdg_toplevel, "an.app").unwrap();
    assert_eq!(god.wlmm.q.len(), before + 2);
    match god.wlim.find_obj_by_id(win.xdg_toplevel).unwrap() {
        WaylandObject::XdgTopLevel(t) => {
            assert_eq!(t.title.as_deref(), Some("a window"));
            assert_eq!(t.appid.as_deref(), Some("an.app"));
        },
        _ => panic!("toplevel expected"),
    }
}

#[test]
fn binding_an_unadvertised_interface_is_refused() {
    let mut god = God::new_default();
    let display_id = Display::new(&mut god);
    let registry_id = Display { id: display_id }.make_registry(&mut god);
    assert!(matches!(
        waytinier::compositor::Compositor::new_bound(&mut god, registry_id),
        Err(WaylandError::NotInRegistry)
    ));
}

#[test]
fn binding_past_the_advertised_version_is_refused() {
    let mut god = God::new_default();
    let display_id = Display::new(&mut god);
    let registry_id = Display { id: display_id }.make_registry(&mut god);
    let mut payload = 1u32.to_le_bytes().to_vec();
    payload.extend(wire_str("wl_compositor"));
    payload.extend(3u32.to_le_bytes()); // only version 3 advertised
    let stream = mk_frame(registry_id, 0, &payload);
    god.handle_events(&stream, stream.len(), &[]).unwrap();
    assert!(matches!(
        waytinier::compositor::Compositor::new_bound(&mut god, registry_id),
        Err(WaylandError::NotInRegistry)
    ));
}

#[test]
fn surface_frame_records_one_pending_callback() {
    let mut mm = MessageManager::new();
    let mut s = Surface::new(7, PixelFormat::Xrgb888);
    s.frame(&mut mm, 21);
    assert_eq!(s.frame_cb, Some(21));
    s.frame(&mut mm, 22);
    assert_eq!(s.frame_cb, Some(22));
    assert_eq!(mm.q.len(), 2);
    match &mm.q[0] {
        QueueEntry::Request(req, kind) => {
            assert_eq!(req.opcode, 3);
            assert_eq!(*kind, WaylandObjectKind::Surface);
        },
        _ => panic!("frame request expected"),
    }
}

#[test]
fn attach_without_a_buffer_is_refused() {
    let mut mm = MessageManager::new();
    let s = Surface::new(7, PixelFormat::Xrgb888);
    assert!(matches!(
        s.attach_buffer(&mut mm),
        Err(WaylandError::BufferObjectNotAttached)
    ));
    assert!(matches!(s.repaint(&mut mm, 1, 1), Err(WaylandError::BufferObjectNotAttached)));
}

#[test]
fn new_surfaces_default_to_xrgb8888() {
    let (god, win, _) = staged_window();
    match god.wlim.find_obj_by_id(win.surface).unwrap() {
        WaylandObject::Surface(s) => assert_eq!(s.pf, PixelFormat::Xrgb888),
        _ => panic!("surface expected"),
    }
}

#[test]
fn pixel_formats_follow_their_wire_codes() {
    assert!(matches!(PixelFormat::from_u32(0), Ok(PixelFormat::Argb888)));
    assert!(matches!(PixelFormat::from_u32(1), Ok(PixelFormat::Xrgb888)));
    assert!(matches!(PixelFormat::from_u32(7), Err(WaylandError::InvalidPixelFormat)));
    assert_eq!(PixelFormat::Xrgb888.width(), 4);
    assert_eq!(PixelFormat::Xrgb888.bpp(), 32);
    assert_eq!(PixelFormat::Argb888.to_fourcc(), fourcc_code(b'X', b'R', b'2', b'4'));
}

#[test]
fn drm_constants_match_their_encodings() {
    assert_eq!(fourcc_code(b'X', b'R', b'2', b'4'), 0x34325258);
    assert_eq!(fourcc_mod_code(DrmFormatModVendor::NoVendor, 0), DRM_FORMAT_MOD_LINEAR);
    assert_eq!(ioc(3, 0x64, 0xb2, 32), 0xC02064B2);
    assert_eq!(iowr(0x64, 0xb2, 32), 0xC02064B2);
    assert_eq!(drm_iowr(0xb2, MODE_CREATE_DUMB_SIZE), DRM_IOCTL_MODE_CREATE_DUMB);
}

#[test]
fn interface_names_match_the_wire() {
    assert_eq!(WaylandObjectKind::Display.as_str(), "wl_display");
    assert_eq!(WaylandObjectKind::SharedMemoryPool.as_str(), "wl_shm_pool");
    assert_eq!(WaylandObjectKind::DmaFeedback.as_str(), "zwp_linux_dmabuf_feedback_v1");
}

#[test]
fn debug_levels_order_and_default() {
    assert_eq!(DebugLevel::Off.as_level(), 0);
    assert_eq!(DebugLevel::SuperVerbose.as_level(), 5);
    assert_eq!(get_dbug(&LogConfig { level: None }), 0);
    assert_eq!(get_dbug(&LogConfig { level: Some(3) }), 3);
}

#[test]
fn expect_rc_maps_missing_values() {
    let some: Option<u32> = Some(4);
    assert_eq!(some.to_wl_err().unwrap(), 4);
    let none: Option<u32> = None;
    assert!(matches!(none.to_wl_err(), Err(WaylandError::ObjectNonExistentInWeak)));
}

#[test]
fn errors_describe_themselves() {
    assert_eq!(WaylandError::RecvLenBad.describe(), "received len is bad");
    assert_eq!(WaylandError::NoWaylandDisplay.describe(), "WAYLAND_DISPLAY is not set");
    assert_eq!(
        WaylandError::InvalidOpCode(4, "wl_shm").describe(),
        "an invalid opcode has been received"
    );
}

#[test]
fn boxed_errors_carry_their_value() {
    let b = WaylandError::RecvLenBad.boxed();
    assert!(matches!(*b, WaylandError::RecvLenBad));
    let re = waytinier::errors::RecvError { id: 1, code: 2, msg: String::from("x") }.boxed();
    assert_eq!(re.id, 1);
}

#[test]
fn shm_records_each_format_once() {
    let mut shm = SharedMemory::new(3);
    shm.handle(0, &0u32.to_le_bytes()).unwrap();
    shm.handle(0, &0u32.to_le_bytes()).unwrap();
    shm.handle(0, &1u32.to_le_bytes()).unwrap();
    assert_eq!(shm.valid_pix_formats.len(), 2);
    // an unknown code is logged, not recorded
    shm.handle(0, &9u32.to_le_bytes()).unwrap();
    assert_eq!(shm.valid_pix_formats.len(), 2);
}

#[test]
fn create_pool_request_carries_the_descriptor_out_of_band() {
    let mut god = God::new_default();
    let shm_id = god
        .wlim
        .new_id_registered(WaylandObject::SharedMemory(SharedMemory::new(0)));
    let pool_id =
        SharedMemory::make_pool(&mut god, shm_id, 17, 64, String::from("wl-shm-x")).unwrap();
    let empty: Vec<u8> = Vec::new();
    god.handle_events(&empty, 0, &[]).unwrap();
    let frame = god.wlmm.outgoing.last().unwrap();
    assert_eq!(frame.fds, vec![17]);
    // payload: new id, then the size; the descriptor adds no bytes
    assert_eq!(frame.bytes.len(), 16);
    assert_eq!(parse_u32(&frame.bytes[8..], 0), Ok(pool_id));
    assert_eq!(read_u32_le(&frame.bytes, 12), 64);
}
