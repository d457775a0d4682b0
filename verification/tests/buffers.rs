use drivers::bo::{open_may_reach, BlobView, BoRegistry, ExportRelease, HostMapping, NewBlob};
use drivers::gpu_ctx::{BindError, GpuContexts};
use drivers::hostvis::HostvisWindow;
use drivers::notes::NoteSet;
use drivers::pages::{order_for_bytes, order_for_pages};
use drivers::virtgpu::{
    capset_mask, context_array_ok, context_init_bind, context_params, device_result,
    drm_release_open, execbuffer_check, execbuffer_complete, get_caps_fetch, get_caps_want,
    resource_create_blob_finish, virtgpu_handle_context_init, virtgpu_handle_execbuffer,
    virtgpu_handle_getparam, virtgpu_handle_map, virtgpu_handle_resource_create_blob,
    virtgpu_handle_resource_info, virtgpu_handle_wait, wait_result, BlobReply, ContextAction,
    ContextParam, CreateBlob, ExecAction, Execbuffer, GpuInfo, MapAction,
};
use drivers::DriverError;

fn blob(res: u32) -> NewBlob {
    NewBlob { phys: 0x20_0000, order: 1, res_handle: res, size: 8192, blob_mem: 1 }
}

fn host_blob(res: u32) -> NewBlob {
    NewBlob { phys: 0, order: 0, res_handle: res, size: 70_000, blob_mem: 2 }
}

#[test]
fn orders_of_blocks() {
    assert_eq!(order_for_pages(0), 0);
    assert_eq!(order_for_pages(1), 0);
    assert_eq!(order_for_pages(3), 2);
    assert_eq!(order_for_pages(4), 2);
    assert_eq!(order_for_bytes(4096), 0);
    assert_eq!(order_for_bytes(4097), 1);
    assert_eq!(order_for_bytes(1920 * 1080 * 4), 11);
}

#[test]
fn reach_of_opens() {
    assert!(open_may_reach(3, 3));
    assert!(open_may_reach(0, 3));
    assert!(!open_may_reach(4, 3));
}

#[test]
fn dumb_buffers_have_handles() {
    let mut b = BoRegistry::new();
    let h = b.add_dumb(0x10_0000, 3);
    assert_eq!(b.dumb_buffer_phys_order(h), Some((0x10_0000, 3)));
    assert!(b.bo_exists(h, 9));
    assert!(!b.bo_exists(h + 1, 9));
    assert!(b.mapping_known(0x10_0000));
    assert!(!b.mapping_known(0x11_0000));
}

#[test]
fn closing_frees_once() {
    let mut b = BoRegistry::new();
    let h = b.add_dumb(0x10_0000, 3);
    let (blob, dumb) = b.gem_handle_delete(h, 1);
    let gone = blob.or(dumb).unwrap();
    assert_eq!(gone.pages, Some((0x10_0000, 3)));
    let (x, y) = b.gem_handle_delete(h, 1);
    assert!(x.is_none() && y.is_none());
    assert_eq!(b.dumb_buffer_phys_order(h), None);
}

#[test]
fn exported_pages_outlive_the_handle() {
    let mut b = BoRegistry::new();
    let h = b.add_dumb(0x10_0000, 0);
    let e = b.prime_export_acquire(h, 1).unwrap();
    assert_eq!((e.phys, e.order, e.len), (0x10_0000, 0, 4096));
    assert!(b.free_dumb(h).is_none());
    assert!(!b.mapping_known(0x10_0000));
    match b.bo_release_exported(e.obj) {
        ExportRelease::Released(Some(t)) => assert_eq!(t.pages, Some((0x10_0000, 0))),
        _ => panic!(),
    }
    assert!(matches!(b.bo_release_exported(0), ExportRelease::Ignored));
}

#[test]
fn blobs_belong_to_their_open() {
    let mut b = BoRegistry::new();
    let h = b.add_blob(blob(7), 3, 5);
    assert!(h >= 0x4000);
    assert_eq!(b.blob_obj_count(), 1);
    assert_eq!(b.blob_lookup(h, 3).unwrap().res_handle, 7);
    assert!(b.blob_lookup(h, 4).is_none());
    assert!(b.free_blob_owned(h, 4).is_none());
    assert_eq!(b.blob_obj_count(), 1);
    let t = b.free_blob_owned(h, 3).unwrap();
    assert_eq!((t.res_handle, t.detach_ctx, t.unref), (7, 5, true));
    assert_eq!(t.pages, Some((0x20_0000, 1)));
    assert_eq!(b.blob_obj_count(), 0);
}

#[test]
fn exported_blob_outlives_its_open() {
    let mut b = BoRegistry::new();
    let mut c = GpuContexts::new();
    assert!(c.ctx_bind(3, 5, 1, 1).is_ok());
    let h = b.add_blob(blob(7), 3, 5);
    let k = b.add_blob(blob(8), 3, 5);
    let e = b.prime_export_acquire(h, 3).unwrap();
    let gone = drm_release_open(&mut b, &mut c, 3);
    assert_eq!(gone.ctx, 5);
    assert_eq!(gone.teardowns.iter().filter(|t| t.unref).count(), 1);
    assert_eq!(b.blob_obj_count(), 1);
    assert!(b.blob_lookup(h, 3).is_none() && b.blob_lookup(k, 3).is_none());
    assert!(matches!(b.bo_release_exported(e.obj), ExportRelease::Released(Some(_))));
    assert_eq!(b.blob_obj_count(), 0);
}

#[test]
fn window_space_is_used_again() {
    let mut w = HostvisWindow::new();
    assert_eq!(w.hostvis_alloc(70_000, 0x4_0000), Some(0));
    assert_eq!(w.hostvis_alloc(1, 0x4_0000), Some(0x2_0000));
    assert_eq!(w.hostvis_alloc(0x2_0000, 0x4_0000), None);
    assert_eq!(w.span_count(), 2);
    w.hostvis_free(0);
    assert_eq!(w.hostvis_alloc(65_536, 0x4_0000), Some(0));
}

#[test]
fn host_blobs_are_mapped_through_the_window() {
    let mut b = BoRegistry::new();
    let h = b.add_blob(host_blob(9), 3, 5);
    let v: BlobView = b.blob_lookup(h, 3).unwrap();
    assert_eq!(b.hostvis_map_reserve(v, None), Err(DriverError::Unsupported));
    let off = b.hostvis_map_reserve(v, Some((0x8_0000_0000, 0x100_0000))).unwrap();
    assert_eq!(b.hostvis_span_count(), 1);
    match b.hostvis_map_record(v, 0x8_0000_0000, off, Some(3)) {
        HostMapping::Mapped(token) => assert_eq!(token, 0x8_0000_0000 + off),
        _ => panic!(),
    }
    assert!(b.mapping_known(0x8_0000_0000 + off + 69_999));
    assert!(!b.mapping_known(0x8_0000_0000 + off + 70_000));
    assert_eq!(b.blob_map_cache_type(0x8_0000_0000 + off), 3);
    assert_eq!(b.blob_map_cache_type(0x9_0000_0000), 1);
    let t = b.free_blob(h).unwrap();
    assert!(t.unmap);
    assert_eq!(t.window, Some(off));
}

#[test]
fn things_are_noted_once() {
    let mut n = NoteSet::new();
    assert!(n.first(7));
    assert!(!n.first(7));
    assert!(n.first(8));
    for k in 100..200 {
        assert!(n.first(k));
    }
    assert!(n.first(199));
    assert!(!n.first(7));
}

#[test]
fn contexts_belong_to_opens() {
    let mut c = GpuContexts::new();
    assert_eq!(c.ctx_lookup(3), 0);
    assert!(c.ctx_bind(3, 5, 4, 2).is_ok());
    assert!(matches!(c.ctx_bind(3, 6, 4, 2), Err(BindError::Taken(5))));
    assert_eq!(c.ctx_lookup(3), 5);
    c.ctx_record_fence(3, 77);
    assert_eq!(c.ctx_lookup_entry(3).unwrap().last_fence, 77);
    assert_eq!(c.ctx_release(3), 5);
    assert_eq!(c.ctx_release(3), 0);
    for i in 1..=16 {
        assert!(c.ctx_bind(i, i, 0, 1).is_ok());
    }
    assert!(matches!(c.ctx_bind(17, 17, 0, 1), Err(BindError::NoSlot)));
}

#[test]
fn parameters_of_contexts() {
    let p = |param: u64, value: u64| ContextParam { param, value };
    assert_eq!(context_params(&vec![p(1, 4), p(2, 8)]).unwrap(), (4, 8));
    assert!(context_params(&vec![p(2, 65)]).is_err());
    assert!(context_params(&vec![p(9, 0)]).is_err());
    assert!(!context_array_ok(1, 0));
    assert!(!context_array_ok(0, 0x1000));
    assert!(context_array_ok(8, 0x1000));
    assert!(!context_array_ok(9, 0x1000));
    let mut c = GpuContexts::new();
    assert!(matches!(
        virtgpu_handle_context_init(&vec![p(1, 4)], &c, 3),
        Ok(ContextAction::Create(4, _))
    ));
    assert!(virtgpu_handle_context_init(&vec![], &c, 0).is_err());
    let out = context_init_bind(&mut c, 3, 11, 4, 1);
    assert!(out.result.is_ok() && out.destroy.is_none());
    assert_eq!(c.ctx_lookup(3), 11);
}

fn exec() -> Execbuffer {
    Execbuffer {
        flags: 0,
        size: 16,
        command: 0x1000,
        bo_handles: 0,
        num_bo_handles: 0,
        fence_fd: 0,
        ring_idx: 0,
        syncobj_stride: 0,
        num_in_syncobjs: 0,
        num_out_syncobjs: 0,
        in_syncobjs: 0,
        out_syncobjs: 0,
    }
}

#[test]
fn submissions() {
    let mut b = BoRegistry::new();
    let mut c = GpuContexts::new();
    let mut notes = NoteSet::new();
    assert!(execbuffer_check(&exec(), &c, 3).is_err());
    assert!(c.ctx_bind(3, 5, 4, 2).is_ok());
    assert_eq!(execbuffer_check(&exec(), &c, 3).unwrap().ctx, 5);
    let h = b.add_dumb(0x1000, 0);
    let (a, noted) =
        virtgpu_handle_execbuffer(&exec(), &vec![h], &b, &c, &mut notes, 3).unwrap();
    assert!(matches!(a, ExecAction::Submit(5, None)));
    assert!(!noted);
    assert!(virtgpu_handle_execbuffer(&exec(), &vec![h + 9], &b, &c, &mut notes, 3).is_err());
    execbuffer_complete(&mut b, &mut c, &vec![h], 3, 42);
    assert_eq!(b.bo_fence(h, 3), Some(42));
    assert_eq!(c.ctx_lookup_entry(3).unwrap().last_fence, 42);
    assert_eq!(virtgpu_handle_wait(&b, h, 3).unwrap(), 42);
    assert!(wait_result(42, Some(true)).is_ok());
    assert!(wait_result(42, Some(false)).is_err());
}

#[test]
fn divergences_are_reported_once() {
    let b = BoRegistry::new();
    let mut c = GpuContexts::new();
    assert!(c.ctx_bind(3, 5, 4, 2).is_ok());
    let mut notes = NoteSet::new();
    let odd = Execbuffer { flags: 0x40, ..exec() };
    assert!(virtgpu_handle_execbuffer(&odd, &vec![], &b, &c, &mut notes, 3).unwrap().1);
    assert!(!virtgpu_handle_execbuffer(&odd, &vec![], &b, &c, &mut notes, 3).unwrap().1);
    let other = Execbuffer { flags: 0x80, ..exec() };
    assert!(virtgpu_handle_execbuffer(&other, &vec![], &b, &c, &mut notes, 3).unwrap().1);
}

#[test]
fn fence_only_submission_is_no_error() {
    let b = BoRegistry::new();
    let mut c = GpuContexts::new();
    assert!(c.ctx_bind(3, 5, 4, 2).is_ok());
    let mut notes = NoteSet::new();
    let e = Execbuffer { size: 0, command: 0, ..exec() };
    assert!(matches!(
        virtgpu_handle_execbuffer(&e, &vec![], &b, &c, &mut notes, 3),
        Ok((ExecAction::Done, _))
    ));
    let half = Execbuffer { size: 0, ..exec() };
    assert!(virtgpu_handle_execbuffer(&half, &vec![], &b, &c, &mut notes, 3).is_err());
}

#[test]
fn blob_resources() {
    let mut b = BoRegistry::new();
    let mut c = GpuContexts::new();
    let req = CreateBlob { blob_mem: 1, blob_flags: 0, size: 8192, blob_id: 0 };
    assert!(c.ctx_bind(3, 5, 4, 2).is_ok());
    let plan = virtgpu_handle_resource_create_blob(&req, &c, 3).unwrap();
    assert!(plan.guest_backed);
    assert_eq!((plan.order, plan.ctx), (1, 5));
    let out =
        resource_create_blob_finish(&mut b, &req, &plan, 0x9000, BlobReply::Created(77), 3);
    let (handle, res) = out.result.unwrap();
    assert_eq!(res, 77);
    let i = virtgpu_handle_resource_info(&b, handle, 3).unwrap();
    assert_eq!((i.res_handle, i.size, i.blob_mem), (77, 8192, 1));
    assert!(virtgpu_handle_resource_info(&b, handle, 4).is_err());
    assert!(matches!(virtgpu_handle_map(&b, handle, 3), Ok(MapAction::Token(0x9000))));
    let refused =
        resource_create_blob_finish(&mut b, &req, &plan, 0xA000, BlobReply::Refused, 3);
    assert!(refused.result.is_err());
    assert_eq!(refused.free, Some((0xA000, 1)));
    let zero = CreateBlob { size: 0, ..req };
    assert!(virtgpu_handle_resource_create_blob(&zero, &c, 3).is_err());
}

#[test]
fn parameters_of_the_device() {
    let b = BoRegistry::new();
    let c = GpuContexts::new();
    let gpu = GpuInfo {
        virgl: true,
        resource_blob: true,
        context_init: false,
        window_len: Some(0x1_0000_0000),
        capset_ids: vec![Some(1), None, Some(4)],
    };
    let get = |p: u64| virtgpu_handle_getparam(p, true, 3, &c, &b, Some(&gpu));
    assert_eq!(get(1), Ok(1));
    assert_eq!(get(6), Ok(0));
    assert_eq!(get(7), Ok(0x12));
    assert_eq!(get(0x1000_0001), Ok(0));
    assert_eq!(get(0x1000_0003), Ok(4096));
    assert_eq!(get(0x1000_0005), Ok(0));
    assert!(get(99).is_err());
    assert!(virtgpu_handle_getparam(1, false, 3, &c, &b, Some(&gpu)).is_err());
    assert_eq!(
        virtgpu_handle_getparam(1, true, 3, &c, &b, None),
        Err(DriverError::NotFound)
    );
    assert_eq!(capset_mask(&vec![Some(0), Some(5)]), 0x21);
}

#[test]
fn capability_sets() {
    assert_eq!(get_caps_want(0, 5), Err(DriverError::InvalidParameter));
    assert_eq!(get_caps_want(1, 0), Err(DriverError::InvalidParameter));
    assert_eq!(get_caps_want(1, 0xFFFF_FFFF), Ok(1 << 20));
    assert_eq!(get_caps_fetch(100, None), Err(DriverError::InvalidParameter));
    assert_eq!(get_caps_fetch(100, Some(0)), Err(DriverError::InvalidParameter));
    assert_eq!(get_caps_fetch(100, Some(60)), Ok(60));
    assert_eq!(device_result(None), Err(DriverError::NotFound));
    assert_eq!(device_result(Some(false)), Err(DriverError::Io));
    assert_eq!(device_result(Some(true)), Ok(()));
}

#[test]
fn census_counts_everything() {
    let mut b = BoRegistry::new();
    b.add_dumb(0x1000, 0);
    b.add_dumb(0x2000, 2);
    b.add_blob(blob(1), 3, 0);
    let (a, c, d, e) = b.bo_census();
    assert_eq!((a, c, d, e), (2, 0, 1, 1));
}

#[test]
fn fences_reach_what_was_named() {
    let mut b = BoRegistry::new();
    let mut c = GpuContexts::new();
    assert!(c.ctx_bind(3, 5, 4, 2).is_ok());
    let named = b.add_dumb(0x1000, 0);
    let other = b.add_dumb(0x2000, 0);
    let mine = b.add_blob(host_blob(9), 3, 5);
    let theirs = b.add_blob(host_blob(10), 4, 6);
    execbuffer_complete(&mut b, &mut c, &vec![named, mine, theirs], 3, 42);
    assert_eq!(b.bo_fence(named, 3), Some(42));
    assert_eq!(b.bo_fence(mine, 3), Some(42));
    assert_eq!(b.bo_fence(other, 3), Some(0));
    assert_eq!(b.bo_fence(theirs, 4), Some(0));
    assert_eq!(b.bo_fence(theirs, 3), None);
}

#[test]
fn host_blobs_are_mapped_once() {
    let mut b = BoRegistry::new();
    let h = b.add_blob(host_blob(9), 3, 5);
    let v: BlobView = b.blob_lookup(h, 3).unwrap();
    assert!(matches!(virtgpu_handle_map(&b, h, 3), Ok(MapAction::MapHost(_))));
    let off = b.hostvis_map_reserve(v, Some((0x8_0000_0000, 0x100_0000))).unwrap();
    b.hostvis_map_record(v, 0x8_0000_0000, off, Some(3));
    for _ in 0..2 {
        match virtgpu_handle_map(&b, h, 3) {
            Ok(MapAction::Token(token)) => assert_eq!(token, 0x8_0000_0000 + off),
            _ => panic!(),
        }
    }
}
