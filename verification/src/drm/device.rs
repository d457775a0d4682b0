//! The display device: its objects, its master, and changes to its pipeline.
use crate::drm::auth::{DrmAuthToken, DrmCapabilities, DrmMaster};
use crate::drm::framebuffer::DrmFramebuffer;
use crate::drm::objects::{
    lemma_timing_fits, DrmAtomicState, DrmConnector, DrmConnectorType, DrmCrtc, DrmEncoder, DrmModeInfo,
    DrmObject, DrmObjectId, DrmPlane, DrmPlaneState, IdCounter,
};
use crate::registry::{bound, lookup, store, take};
use crate::DriverError;
use std::collections::BTreeMap;
use vstd::prelude::*;

verus! {

/// What the device can do.
#[derive(Debug, Clone, Copy, PartialEq, Eq, Structural)]
pub struct DrmDeviceCaps {
    pub dumb_buffer: bool,
    pub vblank_high_crtc: bool,
    pub dumb_preferred_depth: u32,
    pub dumb_prefer_shadow: bool,
    pub prime: bool,
    pub monotonic_timestamp: bool,
    pub atomic: bool,
}

impl Default for DrmDeviceCaps {
    fn default() -> (c: Self)
        ensures
            c == (DrmDeviceCaps {
                dumb_buffer: true,
                vblank_high_crtc: true,
                dumb_preferred_depth: 32,
                dumb_prefer_shadow: false,
                prime: false,
                monotonic_timestamp: true,
                atomic: true,
            }),
    {
        DrmDeviceCaps {
            dumb_buffer: true,
            vblank_high_crtc: true,
            dumb_preferred_depth: 32,
            dumb_prefer_shadow: false,
            prime: false,
            monotonic_timestamp: true,
            atomic: true,
        }
    }
}

/// The geometry of the hardware framebuffer.
#[derive(Debug, Clone, Copy, PartialEq, Eq, Structural)]
pub struct FramebufferInfo {
    pub width: u32,
    pub height: u32,
    pub pitch: u32,
}

/// The device.
pub struct DrmDevice {
    pub caps: DrmDeviceCaps,
    pub master: Option<DrmMaster>,
    pub auth_clients: Vec<DrmAuthToken>,
    pub crtcs: Vec<DrmCrtc>,
    pub connectors: Vec<DrmConnector>,
    pub encoders: Vec<DrmEncoder>,
    pub planes: Vec<DrmPlane>,
    /// Framebuffers by id.
    pub framebuffers: BTreeMap<u32, DrmFramebuffer>,
    pub modes: Vec<DrmModeInfo>,
    pub kms_integration: bool,
    pub fb_integration: bool,
}

/// The objects of a device that clients can ask for.
pub struct DrmResources {
    pub crtcs: Vec<DrmObjectId>,
    pub connectors: Vec<DrmObjectId>,
    pub encoders: Vec<DrmObjectId>,
    pub min_width: u32,
    pub max_width: u32,
    pub min_height: u32,
    pub max_height: u32,
}

/// The planes of a device.
pub struct DrmPlaneResources {
    pub planes: Vec<DrmObjectId>,
}

/// Object `i` of `objs` is the first with id `id`.
pub open spec fn first_with<T: DrmObject>(objs: Seq<T>, id: DrmObjectId, i: int) -> bool {
    &&& 0 <= i < objs.len()
    &&& objs[i].obj_id() == id
    &&& forall|j: int| 0 <= j < i ==> (#[trigger] objs[j]).obj_id() != id
}

/// No object of `objs` has id `id`.
pub open spec fn none_with<T: DrmObject>(objs: Seq<T>, id: DrmObjectId) -> bool {
    forall|j: int| 0 <= j < objs.len() ==> (#[trigger] objs[j]).obj_id() != id
}

/// There is only one first object.
pub proof fn lemma_first_is_one<T: DrmObject>(objs: Seq<T>, id: DrmObjectId, i: int, j: int)
    requires
        first_with(objs, id, i),
        first_with(objs, id, j),
    ensures
        i == j,
{
    if i < j {
        assert(objs[i].obj_id() != id);
    } else if j < i {
        assert(objs[j].obj_id() != id);
    }
}

/// The place of the first object with the given id.
pub fn position<T: DrmObject>(objs: &Vec<T>, id: DrmObjectId) -> (r: Option<usize>)
    ensures
        match r {
            Some(i) => first_with(objs@, id, i as int),
            None => none_with(objs@, id),
        },
{
    let mut i: usize = 0;
    while i < objs.len()
        invariant
            i <= objs.len(),
            forall|j: int| 0 <= j < i ==> (#[trigger] objs@[j]).obj_id() != id,
        decreases objs.len() - i,
    {
        if objs[i].id() == id {
            return Some(i);
        }
        i += 1;
    }
    None
}

/// The ids of objects, in order.
pub open spec fn ids_of<T: DrmObject>(objs: Seq<T>) -> Seq<DrmObjectId> {
    Seq::new(objs.len(), |i: int| objs[i].obj_id())
}

/// The ids of objects, in order.
pub fn collect_ids<T: DrmObject>(objs: &Vec<T>) -> (r: Vec<DrmObjectId>)
    ensures
        r@ == ids_of(objs@),
{
    let mut r: Vec<DrmObjectId> = Vec::new();
    let mut i: usize = 0;
    while i < objs.len()
        invariant
            i <= objs.len(),
            r.len() == i,
            forall|j: int| 0 <= j < i ==> #[trigger] r@[j] == objs@[j].obj_id(),
        decreases objs.len() - i,
    {
        r.push(objs[i].id());
        i += 1;
    }
    assert(r@ =~= ids_of(objs@));
    r
}

/// A plane that nothing is shown on yet.
pub open spec fn is_unused_plane(p: DrmPlane, id: int, plane_type: u32) -> bool {
    &&& p.id.0 == id && p.plane_type == plane_type && p.possible_crtcs == 1
    &&& p.formats@ == seq![0x3432_5258u32, 0x3432_4752]
    &&& p.crtc_id is None && p.fb_id is None
    &&& p.crtc_x == 0 && p.crtc_y == 0 && p.crtc_w == 0 && p.crtc_h == 0
    &&& p.src_x == 0 && p.src_y == 0 && p.src_w == 0 && p.src_h == 0
    &&& p.scaling_supported && p.max_upscale == 8 && p.max_downscale == 4
}

/// The pipeline that a device starts with: one crtc, one virtual connector with
/// three modes, one encoder that the crtc feeds, a primary and a cursor plane.
/// Their ids are consecutive from `first` on.
pub open spec fn is_initial_pipeline(d: DrmDevice, first: int) -> bool {
    &&& d.crtcs@.len() == 1 && d.connectors@.len() == 1 && d.encoders@.len() == 1
        && d.planes@.len() == 2
    &&& d.crtcs@[0].id.0 == first && d.crtcs@[0].mode is None && !d.crtcs@[0].enabled
        && d.crtcs@[0].x == 0 && d.crtcs@[0].y == 0 && d.crtcs@[0].gamma_size == 256
        && d.crtcs@[0].possible_crtcs == 1
    &&& d.connectors@[0].id.0 == first + 1
    &&& d.connectors@[0].connector_type is Virtual && d.connectors@[0].status is Connected
    &&& d.connectors@[0].connector_type_id == 1 && d.connectors@[0].possible_crtcs == 1
        && d.connectors@[0].dpms == 0
    &&& d.connectors@[0].modes@.len() == 3
    &&& d.connectors@[0].modes@[0].is_mode(1920, 1080, 60)
    &&& d.connectors@[0].modes@[1].is_mode(1024, 768, 60)
    &&& d.connectors@[0].modes@[2].is_mode(800, 600, 60)
    &&& d.encoders@[0].id.0 == first + 2 && d.encoders@[0].encoder_type == 1
        && d.encoders@[0].crtc_id == Some(d.crtcs@[0].id)
        && d.encoders@[0].possible_crtcs == 1 && d.encoders@[0].possible_clones == 0
    &&& is_unused_plane(d.planes@[0], first + 3, 1)
    &&& is_unused_plane(d.planes@[1], first + 4, 2)
}

/// What a device can do.
pub open spec fn initial_caps() -> DrmDeviceCaps {
    DrmDeviceCaps {
        dumb_buffer: true,
        vblank_high_crtc: true,
        dumb_preferred_depth: 32,
        dumb_prefer_shadow: false,
        prime: false,
        monotonic_timestamp: true,
        atomic: true,
    }
}

/// Nobody uses the device: it has its initial pipeline, and no master, clients,
/// framebuffers or modes.
pub open spec fn is_unused_device(d: DrmDevice, first: int) -> bool {
    &&& is_initial_pipeline(d, first)
    &&& d.caps == initial_caps()
    &&& d.master is None
    &&& d.auth_clients@ == Seq::<DrmAuthToken>::empty()
    &&& d.framebuffers@ == Map::<u32, DrmFramebuffer>::empty()
    &&& d.modes@ == Seq::<DrmModeInfo>::empty()
}

/// An unused device, tied to the mode-setting driver if that found a display, and
/// drawing to the screen.
pub open spec fn is_set_up(d: DrmDevice, first: int, display_found: bool) -> bool {
    &&& is_unused_device(d, first)
    &&& d.kms_integration == display_found
    &&& d.fb_integration
}

impl DrmDevice {
    /// A device with its initial pipeline.
    pub fn new(ids: &mut IdCounter) -> (d: Self)
        requires
            old(ids).next + 5 <= u32::MAX,
        ensures
            is_unused_device(d, old(ids).next as int),
            final(ids).next == old(ids).next + 5,
            !d.kms_integration && !d.fb_integration,
    {
        let mut d = DrmDevice {
            caps: DrmDeviceCaps::default(),
            master: None,
            auth_clients: Vec::new(),
            crtcs: Vec::new(),
            connectors: Vec::new(),
            encoders: Vec::new(),
            planes: Vec::new(),
            framebuffers: BTreeMap::new(),
            modes: Vec::new(),
            kms_integration: false,
            fb_integration: false,
        };
        d.init_display_pipeline(ids);
        d
    }

    /// Sets up the initial pipeline on a device that has no objects.
    fn init_display_pipeline(&mut self, ids: &mut IdCounter)
        requires
            old(ids).next + 5 <= u32::MAX,
            old(self).crtcs@.len() == 0,
            old(self).connectors@.len() == 0,
            old(self).encoders@.len() == 0,
            old(self).planes@.len() == 0,
        ensures
            is_initial_pipeline(*final(self), old(ids).next as int),
            final(ids).next == old(ids).next + 5,
            *final(self) == (DrmDevice {
                crtcs: final(self).crtcs,
                connectors: final(self).connectors,
                encoders: final(self).encoders,
                planes: final(self).planes,
                ..*old(self)
            }),
    {
        let crtc = DrmCrtc::new(ids);
        let crtc_id = crtc.id();
        self.crtcs.push(crtc);
        let mut connector = DrmConnector::new(DrmConnectorType::Virtual, ids);
        let _ = connector.detect();
        proof {
            lemma_timing_fits(1920, 1080, 60);
            lemma_timing_fits(1024, 768, 60);
            lemma_timing_fits(800, 600, 60);
        }
        connector.add_mode(DrmModeInfo::new(1920, 1080, 60));
        connector.add_mode(DrmModeInfo::new(1024, 768, 60));
        connector.add_mode(DrmModeInfo::new(800, 600, 60));
        self.connectors.push(connector);
        let mut encoder = DrmEncoder::new(1, ids);
        encoder.set_crtc(crtc_id);
        self.encoders.push(encoder);
        let primary_plane = DrmPlane::new(1, ids);
        self.planes.push(primary_plane);
        let cursor_plane = DrmPlane::new(2, ids);
        self.planes.push(cursor_plane);
    }

    /// Takes master privilege; refused while there is a master.
    pub fn set_master(&mut self, token: DrmAuthToken) -> (r: Result<DrmMaster, DriverError>)
        ensures
            r == (if old(self).master is Some {
                Err(DriverError::Unsupported)
            } else {
                Ok(DrmMaster { token, acquired_at: 0 })
            }),
            *final(self) == (DrmDevice {
                master: if r is Ok {
                    Some(DrmMaster { token, acquired_at: 0 })
                } else {
                    old(self).master
                },
                ..*old(self)
            }),
    {
        if self.master.is_some() {
            return Err(DriverError::Unsupported);
        }
        let master = DrmMaster::new(token);
        self.master = Some(master);
        Ok(master)
    }

    /// Gives master privilege up; only the session that holds it can.
    pub fn drop_master(&mut self, master: &DrmMaster) -> (r: Result<(), DriverError>)
        ensures
            r == (match old(self).master {
                Some(m) => if m.token.session_id == master.token.session_id {
                    Ok(())
                } else {
                    Err(DriverError::Unsupported)
                },
                None => Err(DriverError::NotFound),
            }),
            *final(self) == (DrmDevice {
                master: if r is Ok {
                    None
                } else {
                    old(self).master
                },
                ..*old(self)
            }),
    {
        match self.master {
            Some(m) => if m.token.session_id == master.token.session_id {
                self.master = None;
                Ok(())
            } else {
                Err(DriverError::Unsupported)
            },
            None => Err(DriverError::NotFound),
        }
    }

    /// Whether the session of `token` is master.
    pub fn is_master(&self, token: &DrmAuthToken) -> (r: bool)
        ensures
            r == (self.master matches Some(m) && m.token.session_id == token.session_id),
    {
        match self.master {
            Some(m) => m.token.session_id == token.session_id,
            None => false,
        }
    }

    /// Lets a client in.
    pub fn authenticate(&mut self, magic: u32) -> (r: Result<DrmAuthToken, DriverError>)
        ensures
            r == Ok::<DrmAuthToken, DriverError>(
                DrmAuthToken {
                    session_id: 0,
                    magic,
                    authenticated: true,
                    capabilities: DrmCapabilities { bits: u32::MAX },
                },
            ),
            final(self).auth_clients@ == old(self).auth_clients@.push(r->Ok_0),
            *final(self) == (DrmDevice { auth_clients: final(self).auth_clients, ..*old(self) }),
    {
        let token = DrmAuthToken::new_authenticated(magic);
        self.auth_clients.push(token);
        Ok(token)
    }

    /// The objects that clients can ask for.
    pub fn get_resources(&self) -> (r: DrmResources)
        ensures
            r.crtcs@ == ids_of(self.crtcs@),
            r.connectors@ == ids_of(self.connectors@),
            r.encoders@ == ids_of(self.encoders@),
            r.min_width == 320 && r.max_width == 4096,
            r.min_height == 200 && r.max_height == 4096,
    {
        DrmResources {
            crtcs: collect_ids(&self.crtcs),
            connectors: collect_ids(&self.connectors),
            encoders: collect_ids(&self.encoders),
            min_width: 320,
            max_width: 4096,
            min_height: 200,
            max_height: 4096,
        }
    }

    /// The planes.
    pub fn get_plane_resources(&self) -> (r: DrmPlaneResources)
        ensures
            r.planes@ == ids_of(self.planes@),
    {
        DrmPlaneResources { planes: collect_ids(&self.planes) }
    }

    /// The crtc with the given id.
    pub fn get_crtc(&self, id: DrmObjectId) -> (r: Option<&DrmCrtc>)
        ensures
            match r {
                Some(c) => exists|i: int| #[trigger]
                    first_with(self.crtcs@, id, i) && *c == self.crtcs@[i],
                None => none_with(self.crtcs@, id),
            },
    {
        match position(&self.crtcs, id) {
            Some(i) => Some(&self.crtcs[i]),
            None => None,
        }
    }

    /// The crtc with the given id, to be changed.
    pub fn get_crtc_mut(&mut self, id: DrmObjectId) -> (r: Option<&mut DrmCrtc>)
        ensures
            match r {
                Some(c) => exists|i: int| #[trigger]
                    first_with(old(self).crtcs@, id, i) && *c == old(self).crtcs@[i] && final(self).crtcs@ == old(self).crtcs@.update(i, *final(c)),
                None => none_with(old(self).crtcs@, id) && final(self).crtcs@ == old(self).crtcs@,
            },
            *final(self) == (DrmDevice { crtcs: final(self).crtcs, ..*old(self) }),
    {
        match position(&self.crtcs, id) {
            Some(i) => Some(&mut self.crtcs[i]),
            None => None,
        }
    }

    /// The connector with the given id.
    pub fn get_connector(&self, id: DrmObjectId) -> (r: Option<&DrmConnector>)
        ensures
            match r {
                Some(c) => exists|i: int| #[trigger]
                    first_with(self.connectors@, id, i) && *c == self.connectors@[i],
                None => none_with(self.connectors@, id),
            },
    {
        match position(&self.connectors, id) {
            Some(i) => Some(&self.connectors[i]),
            None => None,
        }
    }

    /// The connector with the given id, to be changed.
    pub fn get_connector_mut(&mut self, id: DrmObjectId) -> (r: Option<&mut DrmConnector>)
        ensures
            match r {
                Some(c) => exists|i: int| #[trigger]
                    first_with(old(self).connectors@, id, i) && *c == old(self).connectors@[i]
                        && final(self).connectors@ == old(self).connectors@.update(i, *final(c)),
                None => none_with(old(self).connectors@, id) && final(self).connectors@ == old(
                    self,
                ).connectors@,
            },
            *final(self) == (DrmDevice { connectors: final(self).connectors, ..*old(self) }),
    {
        match position(&self.connectors, id) {
            Some(i) => Some(&mut self.connectors[i]),
            None => None,
        }
    }

    /// The encoder with the given id.
    pub fn get_encoder(&self, id: DrmObjectId) -> (r: Option<&DrmEncoder>)
        ensures
            match r {
                Some(e) => exists|i: int| #[trigger]
                    first_with(self.encoders@, id, i) && *e == self.encoders@[i],
                None => none_with(self.encoders@, id),
            },
    {
        match position(&self.encoders, id) {
            Some(i) => Some(&self.encoders[i]),
            None => None,
        }
    }

    /// The plane with the given id.
    pub fn get_plane(&self, id: DrmObjectId) -> (r: Option<&DrmPlane>)
        ensures
            match r {
                Some(p) => exists|i: int| #[trigger]
                    first_with(self.planes@, id, i) && *p == self.planes@[i],
                None => none_with(self.planes@, id),
            },
    {
        match position(&self.planes, id) {
            Some(i) => Some(&self.planes[i]),
            None => None,
        }
    }

    /// The plane with the given id, to be changed.
    pub fn get_plane_mut(&mut self, id: DrmObjectId) -> (r: Option<&mut DrmPlane>)
        ensures
            match r {
                Some(p) => exists|i: int| #[trigger]
                    first_with(old(self).planes@, id, i) && *p == old(self).planes@[i] && final(self).planes@ == old(self).planes@.update(i, *final(p)),
                None => none_with(old(self).planes@, id) && final(self).planes@ == old(
                    self,
                ).planes@,
            },
            *final(self) == (DrmDevice { planes: final(self).planes, ..*old(self) }),
    {
        match position(&self.planes, id) {
            Some(i) => Some(&mut self.planes[i]),
            None => None,
        }
    }

    /// Registers a framebuffer under its id.
    pub fn add_framebuffer(&mut self, fb: DrmFramebuffer) -> (id: DrmObjectId)
        ensures
            id == fb.id,
            final(self).framebuffers@ == old(self).framebuffers@.insert(fb.id.0, fb),
            *final(self) == (DrmDevice { framebuffers: final(self).framebuffers, ..*old(self) }),
    {
        let id = fb.id();
        store(&mut self.framebuffers, id.0, fb);
        id
    }

    /// Forgets a framebuffer.
    pub fn remove_framebuffer(&mut self, id: DrmObjectId) -> (r: Result<(), DriverError>)
        ensures
            r == (if old(self).framebuffers@.contains_key(id.0) {
                Ok(())
            } else {
                Err(DriverError::NotFound)
            }),
            final(self).framebuffers@ == old(self).framebuffers@.remove(id.0),
            *final(self) == (DrmDevice { framebuffers: final(self).framebuffers, ..*old(self) }),
    {
        match take(&mut self.framebuffers, id.0) {
            Some(_) => Ok(()),
            None => Err(DriverError::NotFound),
        }
    }

    /// The framebuffer with the given id.
    pub fn get_framebuffer(&self, id: DrmObjectId) -> (r: Option<DrmFramebuffer>)
        ensures
            r == bound(self.framebuffers@, id.0),
    {
        lookup(&self.framebuffers, id.0)
    }
}

/// The hardware framebuffer: where it is and what it looks like.
#[derive(Debug, Clone, Copy, PartialEq, Eq, Structural)]
pub struct HardwareFb {
    pub base: u64,
    pub width: u32,
    pub height: u32,
    pub pitch: u32,
}

/// A copy from a framebuffer's pages to the screen.
#[derive(Debug, Clone, Copy, PartialEq, Eq, Structural)]
pub struct PlaneCopy {
    pub src_phys: u64,
    pub src_w: u32,
    pub src_h: u32,
    pub screen: HardwareFb,
}

/// What showing a plane state on the screen takes: nothing if the framebuffer
/// has no pages behind it.
pub open spec fn copy_of(
    fbs: Map<u32, DrmFramebuffer>,
    st: DrmPlaneState,
    hw: Option<HardwareFb>,
) -> Result<Option<PlaneCopy>, DriverError> {
    match st.fb_id {
        None => Err(DriverError::InvalidParameter),
        Some(id) => if !fbs.contains_key(id.0) {
            Err(DriverError::NotFound)
        } else {
            match hw {
                None => Err(DriverError::NotFound),
                Some(screen) => if fbs[id.0].physical_addresses@[0] == 0 {
                    Ok(None)
                } else {
                    Ok(
                        Some(
                            PlaneCopy {
                                src_phys: fbs[id.0].physical_addresses@[0],
                                src_w: fbs[id.0].width,
                                src_h: fbs[id.0].height,
                                screen,
                            },
                        ),
                    )
                },
            }
        },
    }
}

/// The crtcs after the one with id `id` was switched.
pub open spec fn switch_crtc(
    crtcs: Seq<DrmCrtc>,
    id: DrmObjectId,
    mode: DrmModeInfo,
    enabled: bool,
) -> Seq<DrmCrtc> {
    Seq::new(
        crtcs.len(),
        |i: int|
            if first_with(crtcs, id, i) {
                DrmCrtc {
                    mode: if enabled {
                        Some(mode)
                    } else {
                        None
                    },
                    enabled,
                    ..crtcs[i]
                }
            } else {
                crtcs[i]
            },
    )
}

/// The crtcs after the first `n` of `states` were applied.
pub open spec fn switch_crtcs(
    crtcs: Seq<DrmCrtc>,
    states: Seq<(DrmObjectId, DrmModeInfo, bool)>,
    n: int,
) -> Seq<DrmCrtc>
    decreases n,
{
    if n <= 0 {
        crtcs
    } else {
        let s = states[n - 1];
        switch_crtc(switch_crtcs(crtcs, states, n - 1), s.0, s.1, s.2)
    }
}

/// The planes after the one that `st` names was placed.
pub open spec fn place_plane(planes: Seq<DrmPlane>, st: DrmPlaneState) -> Seq<DrmPlane> {
    Seq::new(
        planes.len(),
        |i: int|
            if first_with(planes, st.plane_id, i) {
                DrmPlane {
                    crtc_id: st.crtc_id,
                    fb_id: st.fb_id,
                    crtc_x: st.crtc_x,
                    crtc_y: st.crtc_y,
                    crtc_w: st.crtc_w,
                    crtc_h: st.crtc_h,
                    src_x: st.src_x,
                    src_y: st.src_y,
                    src_w: st.src_w,
                    src_h: st.src_h,
                    ..planes[i]
                }
            } else {
                planes[i]
            },
    )
}

/// The planes after the first `n` of `states` were placed.
pub open spec fn place_planes(planes: Seq<DrmPlane>, states: Seq<DrmPlaneState>, n: int) -> Seq<
    DrmPlane,
>
    decreases n,
{
    if n <= 0 {
        planes
    } else {
        place_plane(place_planes(planes, states, n - 1), states[n - 1])
    }
}

/// The copies that the first `n` of `states` take, in order.
pub open spec fn copies_of(
    fbs: Map<u32, DrmFramebuffer>,
    states: Seq<DrmPlaneState>,
    hw: Option<HardwareFb>,
    n: int,
) -> Seq<PlaneCopy>
    decreases n,
{
    if n <= 0 {
        Seq::empty()
    } else {
        match copy_of(fbs, states[n - 1], hw) {
            Ok(Some(c)) => copies_of(fbs, states, hw, n - 1).push(c),
            _ => copies_of(fbs, states, hw, n - 1),
        }
    }
}

/// How a commit ended, and the copies to make for the planes that were placed.
pub struct CommitOutcome {
    pub result: Result<(), DriverError>,
    pub copies: Vec<PlaneCopy>,
}

/// A commit of `states` on the device `a` placed `n` planes and left it as `b`:
/// all of them, unless the screen cannot show one, where it stops.
pub open spec fn committed(
    a: DrmDevice,
    b: DrmDevice,
    state: DrmAtomicState,
    hw: Option<HardwareFb>,
    out: CommitOutcome,
    n: int,
) -> bool {
    let planes = state.plane_states@;
    &&& 0 <= n <= planes.len()
    &&& b.crtcs@ == switch_crtcs(a.crtcs@, state.crtc_states@, state.crtc_states@.len() as int)
    &&& b.planes@ == place_planes(a.planes@, planes, n)
    &&& b == (DrmDevice { crtcs: b.crtcs, planes: b.planes, ..a })
    &&& out.copies@ == (if a.fb_integration {
        copies_of(a.framebuffers@, planes, hw, n)
    } else {
        Seq::<PlaneCopy>::empty()
    })
    &&& a.fb_integration ==> forall|k: int|
        0 <= k < n ==> copy_of(a.framebuffers@, #[trigger] planes[k], hw) is Ok
    &&& out.result is Ok <==> n == planes.len()
    &&& out.result matches Err(e) ==> a.fb_integration && copy_of(a.framebuffers@, planes[n], hw)
        == Err::<Option<PlaneCopy>, DriverError>(e)
}

/// Setting a crtc of the device `a` left it as `b`: not found without that
/// crtc; otherwise it has the mode, or is off, and the primary plane shows the
/// framebuffer.
pub open spec fn crtc_set(
    a: DrmDevice,
    b: DrmDevice,
    crtc_id: DrmObjectId,
    mode: Option<DrmModeInfo>,
    x: u32,
    y: u32,
    fb_id: Option<DrmObjectId>,
    r: Result<(), DriverError>,
) -> bool {
    if none_with(a.crtcs@, crtc_id) {
        r == Err::<(), DriverError>(DriverError::NotFound) && b == a
    } else {
        &&& r is Ok
        &&& b.crtcs@.len() == a.crtcs@.len()
        &&& forall|i: int|
            0 <= i < a.crtcs@.len() ==> #[trigger] b.crtcs@[i] == (if !first_with(
                a.crtcs@,
                crtc_id,
                i,
            ) {
                a.crtcs@[i]
            } else if mode is Some {
                DrmCrtc { mode, enabled: true, x: x as i32, y: y as i32, ..a.crtcs@[i] }
            } else {
                DrmCrtc { mode: None, enabled: false, ..a.crtcs@[i] }
            })
        &&& b.planes@ == (if fb_id is Some && a.planes@.len() > 0 {
            a.planes@.update(0, DrmPlane { fb_id, crtc_id: Some(crtc_id), ..a.planes@[0] })
        } else {
            a.planes@
        })
        &&& b == (DrmDevice { crtcs: b.crtcs, planes: b.planes, ..a })
    }
}

impl DrmDevice {
    /// Sets the mode of a crtc, or switches it off, and shows a framebuffer on
    /// the primary plane.
    pub fn set_crtc(
        &mut self,
        crtc_id: DrmObjectId,
        mode: Option<DrmModeInfo>,
        x: u32,
        y: u32,
        _connectors: &[DrmObjectId],
        fb_id: Option<DrmObjectId>,
    ) -> (r: Result<(), DriverError>)
        ensures
            crtc_set(*old(self), *final(self), crtc_id, mode, x, y, fb_id, r),
    {
        let i = match position(&self.crtcs, crtc_id) {
            Some(i) => i,
            None => {
                return Err(DriverError::NotFound);
            },
        };
        assert(!none_with(old(self).crtcs@, crtc_id)) by {
            assert(self.crtcs@[i as int].obj_id() == crtc_id);
        }
        proof {
            assert forall|k: int| #[trigger]
                first_with(old(self).crtcs@, crtc_id, k) implies k == i by {
                lemma_first_is_one(old(self).crtcs@, crtc_id, k, i as int);
            }
        }
        match mode {
            Some(m) => {
                let crtc = &mut self.crtcs[i];
                let _ = crtc.set_mode(m);
                crtc.x = x as i32;
                crtc.y = y as i32;
            },
            None => {
                let crtc = &mut self.crtcs[i];
                crtc.disable();
            },
        }
        if fb_id.is_some() && self.planes.len() > 0 {
            let plane = &mut self.planes[0];
            plane.fb_id = fb_id;
            plane.crtc_id = Some(crtc_id);
        }
        Ok(())
    }

    /// What showing a plane state on the screen takes.
    pub fn plane_copy(&self, st: &DrmPlaneState, hw: Option<HardwareFb>) -> (r: Result<
        Option<PlaneCopy>,
        DriverError,
    >)
        ensures
            r == copy_of(self.framebuffers@, *st, hw),
    {
        let id = match st.fb_id {
            Some(id) => id,
            None => {
                return Err(DriverError::InvalidParameter);
            },
        };
        let fb = match self.get_framebuffer(id) {
            Some(fb) => fb,
            None => {
                return Err(DriverError::NotFound);
            },
        };
        let screen = match hw {
            Some(s) => s,
            None => {
                return Err(DriverError::NotFound);
            },
        };
        let src_phys = fb.physical_addresses[0];
        if src_phys == 0 {
            return Ok(None);
        }
        Ok(Some(PlaneCopy { src_phys, src_w: fb.width, src_h: fb.height, screen }))
    }

    /// Switches one crtc.
    fn switch_one(&mut self, id: DrmObjectId, mode: DrmModeInfo, enabled: bool)
        ensures
            final(self).crtcs@ == switch_crtc(old(self).crtcs@, id, mode, enabled),
            *final(self) == (DrmDevice { crtcs: final(self).crtcs, ..*old(self) }),
    {
        let ghost before = self.crtcs@;
        match position(&self.crtcs, id) {
            Some(i) => {
                proof {
                    assert forall|k: int| #[trigger] first_with(before, id, k) implies k == i by {
                        lemma_first_is_one(before, id, k, i as int);
                    }
                }
                let crtc = &mut self.crtcs[i];
                if enabled {
                    let _ = crtc.set_mode(mode);
                } else {
                    crtc.disable();
                }
            },
            None => {},
        }
        assert(self.crtcs@ =~= switch_crtc(before, id, mode, enabled));
    }

    /// Places one plane.
    fn place_one(&mut self, st: DrmPlaneState)
        ensures
            final(self).planes@ == place_plane(old(self).planes@, st),
            *final(self) == (DrmDevice { planes: final(self).planes, ..*old(self) }),
    {
        let ghost before = self.planes@;
        match position(&self.planes, st.plane_id) {
            Some(i) => {
                proof {
                    assert forall|k: int| #[trigger]
                        first_with(before, st.plane_id, k) implies k == i by {
                        lemma_first_is_one(before, st.plane_id, k, i as int);
                    }
                }
                let plane = &mut self.planes[i];
                plane.crtc_id = st.crtc_id;
                plane.fb_id = st.fb_id;
                plane.crtc_x = st.crtc_x;
                plane.crtc_y = st.crtc_y;
                plane.crtc_w = st.crtc_w;
                plane.crtc_h = st.crtc_h;
                plane.src_x = st.src_x;
                plane.src_y = st.src_y;
                plane.src_w = st.src_w;
                plane.src_h = st.src_h;
            },
            None => {},
        }
        assert(self.planes@ =~= place_plane(before, st));
    }

    /// Applies a state: the crtcs first, next the planes one after the other. If
    /// the device draws to the screen, each plane is copied there before it is
    /// placed, and the first that cannot be shown ends the commit.
    pub fn atomic_commit(
        &mut self,
        state: &DrmAtomicState,
        _flags: u32,
        hw: Option<HardwareFb>,
    ) -> (out: CommitOutcome)
        ensures
            exists|n: int| #[trigger] committed(*old(self), *final(self), *state, hw, out, n),
    {
        let ghost start = *self;
        let mut i: usize = 0;
        while i < state.crtc_states.len()
            invariant
                i <= state.crtc_states.len(),
                self.crtcs@ == switch_crtcs(start.crtcs@, state.crtc_states@, i as int),
                *self == (DrmDevice { crtcs: self.crtcs, ..start }),
            decreases state.crtc_states.len() - i,
        {
            let (id, mode, enabled) = state.crtc_states[i];
            self.switch_one(id, mode, enabled);
            i += 1;
        }
        let ghost crtcs = self.crtcs;
        let mut copies: Vec<PlaneCopy> = Vec::new();
        let mut k: usize = 0;
        while k < state.plane_states.len()
            invariant
                k <= state.plane_states.len(),
                self.planes@ == place_planes(start.planes@, state.plane_states@, k as int),
                crtcs@ == switch_crtcs(
                    start.crtcs@,
                    state.crtc_states@,
                    state.crtc_states@.len() as int,
                ),
                *self == (DrmDevice { crtcs, planes: self.planes, ..start }),
                copies@ == (if start.fb_integration {
                    copies_of(start.framebuffers@, state.plane_states@, hw, k as int)
                } else {
                    Seq::<PlaneCopy>::empty()
                }),
                start.fb_integration ==> forall|j: int|
                    0 <= j < k ==> copy_of(
                        start.framebuffers@,
                        #[trigger] state.plane_states@[j],
                        hw,
                    ) is Ok,
                *old(self) == start,
            decreases state.plane_states.len() - k,
        {
            let st = state.plane_states[k];
            if self.fb_integration {
                match self.plane_copy(&st, hw) {
                    Ok(Some(c)) => {
                        copies.push(c);
                    },
                    Ok(None) => {},
                    Err(e) => {
                        let out = CommitOutcome { result: Err(e), copies };
                        assert(committed(start, *self, *state, hw, out, k as int));
                        return out;
                    },
                }
            }
            self.place_one(st);
            k += 1;
        }
        let out = CommitOutcome { result: Ok(()), copies };
        assert(committed(start, *self, *state, hw, out, k as int));
        out
    }

    /// Ties the device to the mode-setting driver, if that found a display.
    pub fn enable_kms_integration(&mut self, display_found: bool) -> (r: Result<(), DriverError>)
        ensures
            r == (if display_found {
                Ok(())
            } else {
                Err(DriverError::NotFound)
            }),
            *final(self) == (DrmDevice {
                kms_integration: old(self).kms_integration || display_found,
                ..*old(self)
            }),
    {
        if display_found {
            self.kms_integration = true;
            Ok(())
        } else {
            Err(DriverError::NotFound)
        }
    }

    /// Lets the device draw to the screen.
    pub fn enable_fb_integration(&mut self) -> (r: Result<(), DriverError>)
        ensures
            r is Ok,
            *final(self) == (DrmDevice { fb_integration: true, ..*old(self) }),
    {
        self.fb_integration = true;
        Ok(())
    }
}

/// A device that is set up: its initial pipeline, tied to the mode-setting
/// driver if that found a display, and drawing to the screen.
pub fn init_drm(ids: &mut IdCounter, display_found: bool) -> (d: DrmDevice)
    requires
        old(ids).next + 5 <= u32::MAX,
    ensures
        is_set_up(d, old(ids).next as int, display_found),
        final(ids).next == old(ids).next + 5,
{
    let mut d = DrmDevice::new(ids);
    let _ = d.enable_kms_integration(display_found);
    let _ = d.enable_fb_integration();
    d
}

/// The objects of a new device all have ids of their own.
pub proof fn lemma_initial_ids_are_distinct(d: DrmDevice, first: int)
    requires
        is_initial_pipeline(d, first),
    ensures
        ({
            let ids = seq![
                d.crtcs@[0].id,
                d.connectors@[0].id,
                d.encoders@[0].id,
                d.planes@[0].id,
                d.planes@[1].id,
            ];
            forall|i: int, j: int| 0 <= i < j < 5 ==> ids[i] != ids[j]
        }),
{
}

} // verus!
