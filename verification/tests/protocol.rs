use waytinier::buffer::{Buffer, BufferBackend};
use waytinier::bytes::read_u32_le;
use waytinier::callback::Callback;
use waytinier::display::Display;
use waytinier::dmabuf::DmaFeedback;
use waytinier::errors::WaylandError;
use waytinier::god::God;
use waytinier::ids::IdentManager;
use waytinier::objects::WaylandObject;
use waytinier::shm::{PixelFormat, SharedMemory, SharedMemoryPool};
use waytinier::surface::Surface;
use waytinier::wire::{parse_i32, parse_u32};
use waytinier::xdgshell::{XdgSurface, XdgTopLevel, XdgWmBase};

fn mk_frame(id: u32, opcode: u16, payload: &[u8]) -> Vec<u8> {
    let size = (8 + payload.len()) as u32;
    let mut v = id.to_le_bytes().to_vec();
    v.extend(((size << 16) | opcode as u32).to_le_bytes());
    v.extend(payload);
    v
}

fn wire_str(s: &str) -> Vec<u8> {
    let mut v = ((s.len() + 1) as u32).to_le_bytes().to_vec();
    v.extend(s.as_bytes());
    v.push(0);
    while v.len() % 4 != 0 {
        v.push(0);
    }
    v
}

#[test]
fn id_roundtrip_reuses_the_freed_id() {
    let mut im = IdentManager::new();
    let id1 = im.new_id_registered(WaylandObject::Callback(Callback::new()));
    im.free_id(id1).unwrap();
    let id2 = im.new_id_registered(WaylandObject::Callback(Callback::new()));
    assert_eq!(id1, id2);
}

#[test]
fn free_list_is_fifo() {
    let mut im = IdentManager::new();
    let a = im.new_id_registered(WaylandObject::Callback(Callback::new()));
    let b = im.new_id_registered(WaylandObject::Callback(Callback::new()));
    im.free_id(a).unwrap();
    im.free_id(b).unwrap();
    let c = im.new_id_registered(WaylandObject::Callback(Callback::new()));
    let d = im.new_id_registered(WaylandObject::Callback(Callback::new()));
    assert_eq!((c, d), (a, b));
}

#[test]
fn lookup_succeeds_until_free() {
    let mut im = IdentManager::new();
    let id = im.new_id_registered(WaylandObject::Compositor(
        waytinier::compositor::Compositor::new(0),
    ));
    assert!(im.find_obj_by_id(id).is_ok());
    im.free_id(id).unwrap();
    assert!(matches!(im.find_obj_by_id(id), Err(WaylandError::ObjectNonExistent)));
}

#[test]
fn double_free_changes_nothing() {
    let mut im = IdentManager::new();
    let id = im.new_id_registered(WaylandObject::Callback(Callback::new()));
    im.free_id(id).unwrap();
    im.free_id(id).unwrap();
    let again = im.new_id_registered(WaylandObject::Callback(Callback::new()));
    assert_eq!(again, id);
    let fresh = im.new_id_registered(WaylandObject::Callback(Callback::new()));
    assert_eq!(fresh, id + 1);
}

#[test]
fn display_gets_id_one() {
    let mut god = God::new_default();
    let display = Display::new(&mut god);
    assert_eq!(display, 1);
}

#[test]
fn registry_discovery_records_both_globals() {
    let mut god = God::new_default();
    let display_id = Display::new(&mut god);
    let display = Display { id: display_id };
    let registry_id = display.make_registry(&mut god);

    let mut payload1 = 3u32.to_le_bytes().to_vec();
    payload1.extend(wire_str("wl_compositor"));
    payload1.extend(5u32.to_le_bytes());
    let mut payload2 = 4u32.to_le_bytes().to_vec();
    payload2.extend(wire_str("wl_shm"));
    payload2.extend(1u32.to_le_bytes());

    let sync_cb = display.sync(&mut god);
    let mut stream = mk_frame(registry_id, 0, &payload1);
    stream.extend(mk_frame(registry_id, 0, &payload2));
    stream.extend(mk_frame(sync_cb, 0, &0u32.to_le_bytes()));
    god.handle_events(&stream, stream.len(), &[]).unwrap();

    match god.wlim.find_obj_by_id(registry_id).unwrap() {
        WaylandObject::Registry(reg) => {
            assert_eq!(reg.inner.len(), 2);
            assert_eq!(reg.does_implement("wl_compositor"), Some(5));
            assert_eq!(reg.does_implement("wl_shm"), Some(1));
            assert_eq!(reg.does_implement("xdg_wm_base"), None);
        },
        _ => panic!("registry expected"),
    }
}

#[test]
fn registry_global_remove_prunes() {
    let mut god = God::new_default();
    let registry_id = god.wlim.new_id_registered(WaylandObject::Registry(
        waytinier::registry::Registry::new_empty(0),
    ));
    let mut payload = 3u32.to_le_bytes().to_vec();
    payload.extend(wire_str("wl_compositor"));
    payload.extend(5u32.to_le_bytes());
    let mut stream = mk_frame(registry_id, 0, &payload);
    stream.extend(mk_frame(registry_id, 1, &3u32.to_le_bytes()));
    god.handle_events(&stream, stream.len(), &[]).unwrap();
    match god.wlim.find_obj_by_id(registry_id).unwrap() {
        WaylandObject::Registry(reg) => {
            assert_eq!(reg.does_implement("wl_compositor"), None);
        },
        _ => panic!("registry expected"),
    }
}

#[test]
fn ping_is_answered_by_pong_with_same_serial() {
    let mut god = God::new_default();
    let base_id = god.wlim.new_id_registered(WaylandObject::XdgWmBase(XdgWmBase { id: 0 }));
    let base_id_fixed = base_id;
    // the object's own id field must match its map id for the pong sender
    god.wlim.take_obj(base_id).unwrap();
    god.wlim
        .register_at(base_id, WaylandObject::XdgWmBase(XdgWmBase { id: base_id_fixed }));

    let stream = mk_frame(base_id, 0, &0xDEADBEEFu32.to_le_bytes());
    god.handle_events(&stream, stream.len(), &[]).unwrap();

    assert_eq!(god.wlmm.outgoing.len(), 1);
    let frame = &god.wlmm.outgoing[0].bytes;
    assert_eq!(read_u32_le(frame, 0), base_id);
    let word2 = read_u32_le(frame, 4);
    assert_eq!(word2 & 0xFFFF, 3);
    assert_eq!(parse_u32(&frame[8..], 0), Ok(0xDEADBEEF));
}

#[test]
fn configure_is_acked_before_any_later_commit() {
    let mut god = God::new_default();
    let surf_id = god.wlim.new_id_registered(WaylandObject::Surface(Surface::new(
        2,
        PixelFormat::Xrgb888,
    )));
    let xdgs_id = god
        .wlim
        .new_id_registered(WaylandObject::XdgSurface(XdgSurface::new(0, surf_id)));
    god.wlim.take_obj(xdgs_id).unwrap();
    god.wlim
        .register_at(xdgs_id, WaylandObject::XdgSurface(XdgSurface::new(xdgs_id, surf_id)));

    let stream = mk_frame(xdgs_id, 0, &41u32.to_le_bytes());
    god.handle_events(&stream, stream.len(), &[]).unwrap();

    // the ack went out during the handling of the configure itself
    assert_eq!(god.wlmm.outgoing.len(), 1);
    let ack = &god.wlmm.outgoing[0].bytes;
    assert_eq!(read_u32_le(ack, 0), xdgs_id);
    assert_eq!(read_u32_le(ack, 4) & 0xFFFF, 4);
    assert_eq!(parse_u32(&ack[8..], 0), Ok(41));

    // a commit issued afterwards lands strictly later on the wire
    let surface = Surface::new(surf_id, PixelFormat::Xrgb888);
    surface.commit(&mut god.wlmm);
    let empty: Vec<u8> = Vec::new();
    god.handle_events(&empty, 0, &[]).unwrap();
    assert_eq!(god.wlmm.outgoing.len(), 2);
    let commit = &god.wlmm.outgoing[1].bytes;
    assert_eq!(read_u32_le(commit, 0), surf_id);
    assert_eq!(read_u32_le(commit, 4) & 0xFFFF, 6);
    match god.wlim.find_obj_by_id(xdgs_id).unwrap() {
        WaylandObject::XdgSurface(x) => assert!(x.is_configured),
        _ => panic!("xdg_surface expected"),
    }
}

#[test]
fn pool_create_and_resize() {
    let mut god = God::new_default();
    let shm_id = god
        .wlim
        .new_id_registered(WaylandObject::SharedMemory(SharedMemory::new(0)));
    let pool_id =
        SharedMemory::make_pool(&mut god, shm_id, 5, 400 * 400 * 4, String::from("wl-shm-test"))
            .unwrap();
    let data = waytinier::facade::read_pool_data(&god, pool_id).unwrap();
    assert_eq!(data.len(), 640000);

    match god.wlim.take_obj(pool_id).unwrap() {
        WaylandObject::SharedMemoryPool(mut pool) => {
            let acts = pool.get_resize_actions_if_larger(500 * 500 * 4).unwrap();
            assert_eq!(pool.size, 1000000);
            assert_eq!(pool.data.len(), 1000000);
            assert_eq!(acts.len(), 2);
            match &acts[1] {
                waytinier::objects::EventAction::Request(req) => {
                    assert_eq!(req.opcode, 2);
                    let enc = req.args[0].as_vec_u8();
                    assert_eq!(parse_i32(&enc, 0), Ok(1000000));
                },
                _ => panic!("resize request expected"),
            }
            // growing to a size not above the current one changes nothing
            let noop = pool.get_resize_actions_if_larger(1000).unwrap();
            assert!(noop.is_empty());
            assert_eq!(pool.size, 1000000);
            god.wlim
                .register_at(pool_id, WaylandObject::SharedMemoryPool(pool));
        },
        _ => panic!("pool expected"),
    }
}

#[test]
fn toplevel_configure_triggers_resize_sequence() {
    let mut god = God::new_default();
    let pool_id = god.wlim.new_id_registered(WaylandObject::SharedMemoryPool(
        SharedMemoryPool::new(0, String::from("wl-shm-t"), 800 * 600 * 4, 5),
    ));
    let surf_id = god.wlim.new_id_registered(WaylandObject::Surface(Surface::new(
        0,
        PixelFormat::Xrgb888,
    )));
    let buf_id = god.wlim.new_id_registered(WaylandObject::Buffer(Buffer::new(
        0,
        0,
        800,
        600,
        BufferBackend::SharedMemory(pool_id),
        surf_id,
    )));
    // fix up self-ids and the surface's attachment
    match god.wlim.take_obj(pool_id).unwrap() {
        WaylandObject::SharedMemoryPool(mut p) => {
            p.id = pool_id;
            god.wlim.register_at(pool_id, WaylandObject::SharedMemoryPool(p));
        },
        _ => unreachable!(),
    }
    match god.wlim.take_obj(surf_id).unwrap() {
        WaylandObject::Surface(mut s) => {
            s.id = surf_id;
            s.attached_buf = Some(buf_id);
            s.w = 800;
            s.h = 600;
            god.wlim.register_at(surf_id, WaylandObject::Surface(s));
        },
        _ => unreachable!(),
    }
    match god.wlim.take_obj(buf_id).unwrap() {
        WaylandObject::Buffer(mut b) => {
            b.id = buf_id;
            god.wlim.register_at(buf_id, WaylandObject::Buffer(b));
        },
        _ => unreachable!(),
    }
    let xdgs_id = god
        .wlim
        .new_id_registered(WaylandObject::XdgSurface(XdgSurface::new(0, surf_id)));
    let tl_id = god
        .wlim
        .new_id_registered(WaylandObject::XdgTopLevel(XdgTopLevel::new(0, xdgs_id)));
    match god.wlim.take_obj(xdgs_id).unwrap() {
        WaylandObject::XdgSurface(_) => {
            god.wlim
                .register_at(xdgs_id, WaylandObject::XdgSurface(XdgSurface::new(xdgs_id, surf_id)));
        },
        _ => unreachable!(),
    }
    match god.wlim.take_obj(tl_id).unwrap() {
        WaylandObject::XdgTopLevel(_) => {
            god.wlim
                .register_at(tl_id, WaylandObject::XdgTopLevel(XdgTopLevel::new(tl_id, xdgs_id)));
        },
        _ => unreachable!(),
    }

    // configure(w=1024, h=768, states=[Activated])
    let mut payload = 1024i32.to_le_bytes().to_vec();
    payload.extend(768i32.to_le_bytes());
    payload.extend(4u32.to_le_bytes()); // array byte length
    payload.extend(4u32.to_le_bytes()); // Activated
    let stream = mk_frame(tl_id, 0, &payload);
    god.handle_events(&stream, stream.len(), &[]).unwrap();

    // destroy-old-buffer, pool resize to 1024*768*4, create-new-buffer
    assert_eq!(god.wlmm.outgoing.len(), 3);
    let destroy = &god.wlmm.outgoing[0].bytes;
    assert_eq!(read_u32_le(destroy, 0), buf_id);
    assert_eq!(read_u32_le(destroy, 4) & 0xFFFF, 0);
    let resize = &god.wlmm.outgoing[1].bytes;
    assert_eq!(read_u32_le(resize, 0), pool_id);
    assert_eq!(read_u32_le(resize, 4) & 0xFFFF, 2);
    assert_eq!(parse_i32(&resize[8..], 0), Ok(1024 * 768 * 4));
    let create = &god.wlmm.outgoing[2].bytes;
    assert_eq!(read_u32_le(create, 0), pool_id);
    assert_eq!(read_u32_le(create, 4) & 0xFFFF, 0);
    let body = &create[8..];
    let new_buf_id = parse_u32(body, 0).unwrap();
    assert_eq!(parse_i32(body, 4), Ok(0));
    assert_eq!(parse_i32(body, 8), Ok(1024));
    assert_eq!(parse_i32(body, 12), Ok(768));
    assert_eq!(parse_i32(body, 16), Ok(4096));
    assert_eq!(parse_u32(body, 20), Ok(1)); // Xrgb888's wire code

    // the surface's committed dimensions followed
    match god.wlim.find_obj_by_id(surf_id).unwrap() {
        WaylandObject::Surface(s) => {
            assert_eq!((s.w, s.h), (1024, 768));
        },
        _ => panic!("surface expected"),
    }
    // the replacement buffer lives under its new id with the new geometry
    match god.wlim.find_obj_by_id(new_buf_id).unwrap() {
        WaylandObject::Buffer(b) => {
            assert_eq!((b.width, b.height), (1024, 768));
        },
        _ => panic!("buffer expected"),
    }
}

#[test]
fn invalid_state_in_configure_is_a_protocol_error() {
    let mut god = God::new_default();
    let tl_id = god
        .wlim
        .new_id_registered(WaylandObject::XdgTopLevel(XdgTopLevel::new(1, 1)));
    let mut payload = 100i32.to_le_bytes().to_vec();
    payload.extend(100i32.to_le_bytes());
    payload.extend(4u32.to_le_bytes());
    payload.extend(99u32.to_le_bytes());
    let stream = mk_frame(tl_id, 0, &payload);
    assert!(matches!(
        god.handle_events(&stream, stream.len(), &[]),
        Err(WaylandError::InvalidEnumVariant)
    ));
}

#[test]
fn sync_barrier_stops_the_apply_phase_at_its_callback() {
    let mut god = God::new_default();
    let display_id = Display::new(&mut god);
    let display = Display { id: display_id };
    let shm_id = god
        .wlim
        .new_id_registered(WaylandObject::SharedMemory(SharedMemory::new(2)));
    let base_id = god
        .wlim
        .new_id_registered(WaylandObject::XdgWmBase(XdgWmBase { id: 3 }));
    let sync_cb = display.sync(&mut god);
    let sent_before = god.wlmm.outgoing.len();

    // unrelated event, then the sync completion, then a ping whose pong
    // would be a request: the pong action must be dropped by the barrier
    let mut stream = mk_frame(shm_id, 0, &0u32.to_le_bytes());
    stream.extend(mk_frame(sync_cb, 0, &0u32.to_le_bytes()));
    stream.extend(mk_frame(base_id, 0, &7u32.to_le_bytes()));
    god.handle_events(&stream, stream.len(), &[]).unwrap();

    assert_eq!(god.wlim.current_sync_id, None);
    // the earlier format event was handled, and no pong was sent
    assert_eq!(god.wlmm.outgoing.len(), sent_before);
    match god.wlim.find_obj_by_id(shm_id).unwrap() {
        WaylandObject::SharedMemory(s) => {
            assert_eq!(s.valid_pix_formats.len(), 1);
        },
        _ => panic!("wl_shm expected"),
    }
}

#[test]
fn delete_id_event_recycles_the_id() {
    let mut god = God::new_default();
    let display_id = Display::new(&mut god);
    let victim = god.wlim.new_id_registered(WaylandObject::Callback(Callback::new()));
    let stream = mk_frame(display_id, 1, &victim.to_le_bytes());
    god.handle_events(&stream, stream.len(), &[]).unwrap();
    assert!(god.wlim.find_obj_by_id(victim).is_err());
    let reused = god.wlim.new_id_registered(WaylandObject::Callback(Callback::new()));
    assert_eq!(reused, victim);
}

#[test]
fn display_error_event_is_surfaced() {
    let mut god = God::new_default();
    let display_id = Display::new(&mut god);
    let mut payload = 4u32.to_le_bytes().to_vec();
    payload.extend(2u32.to_le_bytes());
    payload.extend(wire_str("bad object"));
    let stream = mk_frame(display_id, 0, &payload);
    god.handle_events(&stream, stream.len(), &[]).unwrap();
    assert_eq!(god.errors.len(), 1);
    assert_eq!(god.errors[0].id, 4);
    assert_eq!(god.errors[0].code, 2);
    assert_eq!(god.errors[0].msg, "bad object");
}

#[test]
fn events_for_dead_objects_are_skipped() {
    let mut god = God::new_default();
    let stream = mk_frame(77, 0, &0u32.to_le_bytes());
    god.handle_events(&stream, stream.len(), &[]).unwrap();
    assert!(god.wlmm.outgoing.is_empty());
}

#[test]
fn buffer_release_clears_in_use() {
    let mut god = God::new_default();
    let buf_id = god.wlim.new_id_registered(WaylandObject::Buffer(Buffer::new(
        1,
        0,
        4,
        4,
        BufferBackend::SharedMemory(9),
        2,
    )));
    match god.wlim.take_obj(buf_id).unwrap() {
        WaylandObject::Buffer(mut b) => {
            b.in_use = true;
            god.wlim.register_at(buf_id, WaylandObject::Buffer(b));
        },
        _ => unreachable!(),
    }
    let stream = mk_frame(buf_id, 0, &[]);
    god.handle_events(&stream, stream.len(), &[]).unwrap();
    match god.wlim.find_obj_by_id(buf_id).unwrap() {
        WaylandObject::Buffer(b) => assert!(!b.in_use),
        _ => panic!("buffer expected"),
    }
}

#[test]
fn buffer_destroy_queues_and_recycles() {
    let mut god = God::new_default();
    let buf_id = god.wlim.new_id_registered(WaylandObject::Buffer(Buffer::new(
        0,
        0,
        4,
        4,
        BufferBackend::SharedMemory(9),
        2,
    )));
    let b = Buffer::new(buf_id, 0, 4, 4, BufferBackend::SharedMemory(9), 2);
    b.destroy(&mut god.wlmm, &mut god.wlim).unwrap();
    assert!(god.wlim.find_obj_by_id(buf_id).is_err());
    match god.wlmm.q.last().unwrap() {
        waytinier::wire::QueueEntry::Request(req, _) => {
            assert_eq!(req.sender_id, buf_id);
            assert_eq!(req.opcode, 0);
        },
        _ => panic!("destroy request expected"),
    }
    let reused = god.wlim.new_id_registered(WaylandObject::Callback(Callback::new()));
    assert_eq!(reused, buf_id);
}

#[test]
fn unknown_opcode_is_reported_per_interface() {
    let mut cb = Callback::new();
    assert!(matches!(
        cb.handle(1, 9, &[]),
        Err(WaylandError::InvalidOpCode(9, "wl_callback"))
    ));
    let mut surface = Surface::new(1, PixelFormat::Argb888);
    assert!(matches!(surface.handle(0, &[]), Err(WaylandError::InvalidOpCode(0, _))));
}

#[test]
fn feedback_wants_a_descriptor_with_its_table() {
    let mut fb = DmaFeedback::new(4);
    assert!(matches!(
        fb.handle(1, &16u32.to_le_bytes(), &[]),
        Err(WaylandError::FdExpected)
    ));
    fb.handle(1, &16u32.to_le_bytes(), &[9]).unwrap();
    assert_eq!(fb.pending_table, Some((9, 16)));
}

#[test]
fn feedback_table_and_tranche_selection() {
    let mut fb = DmaFeedback::new(4);
    let mut table: Vec<u8> = Vec::new();
    table.extend(0x34325258u32.to_le_bytes());
    table.extend(0u32.to_le_bytes());
    table.extend(0u64.to_le_bytes());
    table.extend(0x34324241u32.to_le_bytes());
    table.extend(0u32.to_le_bytes());
    table.extend(72057594037927942u64.to_le_bytes());
    fb.parse_format_table(&table);
    assert_eq!(fb.format_table.len(), 2);
    assert_eq!(fb.format_table[0], (0x34325258, 0));

    // tranche selects only the second entry
    let mut payload = 2u32.to_le_bytes().to_vec();
    payload.extend(1u16.to_le_bytes());
    fb.handle(5, &payload, &[]).unwrap();
    assert!(!fb.has_format(0x34325258, 0));
    assert!(fb.has_format(0x34324241, 72057594037927942));

    fb.handle(0, &[], &[]).unwrap();
    assert!(fb.done);

    // target device: a matching device number is confirmed
    let mut devs = 4u32.to_le_bytes().to_vec();
    devs.extend(0xE100u32.to_le_bytes());
    fb.handle(4, &devs, &[]).unwrap();
    fb.confirm_target_device(0xE100);
    assert_eq!(fb.target_device, Some(0xE100));
}
