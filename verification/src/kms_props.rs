//! The properties of planes, crtc and connector, and how they are described.
use crate::text::{fill_name, name_field};
use crate::DriverError;
use vstd::prelude::*;

verus! {

/// The primary plane.
pub const DRM_PLANE_ID: u32 = 30;

/// The cursor plane.
pub const DRM_CURSOR_PLANE_ID: u32 = 31;

pub const DRM_PLANE_TYPE_PRIMARY: u32 = 1;

pub const DRM_PLANE_TYPE_CURSOR: u32 = 2;

pub const DRM_CRTC_ID: u32 = 1;

pub const DRM_CONNECTOR_ID: u32 = 1;

// The id ranges are disjoint per kind of object: 40 to 51 for planes, 60 and 61
// for the crtc, 70 for the connector.
pub const PROP_TYPE: u32 = 40;

pub const PROP_PLANE_CRTC_ID: u32 = 41;

pub const PROP_FB_ID: u32 = 42;

pub const PROP_SRC_X: u32 = 43;

pub const PROP_SRC_Y: u32 = 44;

pub const PROP_SRC_W: u32 = 45;

pub const PROP_SRC_H: u32 = 46;

pub const PROP_CRTC_X: u32 = 47;

pub const PROP_CRTC_Y: u32 = 48;

pub const PROP_CRTC_W: u32 = 49;

pub const PROP_CRTC_H: u32 = 50;

pub const PROP_FB_DAMAGE_CLIPS: u32 = 51;

pub const PROP_ACTIVE: u32 = 60;

pub const PROP_MODE_ID: u32 = 61;

pub const PROP_CONN_CRTC_ID: u32 = 70;

pub const DRM_MODE_OBJECT_CRTC: u64 = 0xcccc_cccc;

pub const DRM_MODE_OBJECT_FB: u64 = 0xfbfb_fbfb;

pub const DRM_MODE_OBJECT_PLANE: u32 = 0xeeee_eeee;

pub const DRM_MODE_OBJECT_CRTC_T: u32 = 0xcccc_cccc;

pub const DRM_MODE_OBJECT_CONNECTOR_T: u32 = 0xc0c0_c0c0;

pub const DRM_MODE_PROP_RANGE: u32 = 2;

pub const DRM_MODE_PROP_ENUM: u32 = 8;

pub const DRM_MODE_PROP_BLOB: u32 = 16;

pub const DRM_MODE_PROP_OBJECT: u32 = 64;

pub const DRM_MODE_PROP_SIGNED_RANGE: u32 = 128;

/// What values a property takes, and so how its value array is reported.
#[derive(Debug, Clone, Copy, PartialEq, Eq, Structural)]
pub enum PropKind {
    /// Lowest and highest value.
    Range(u64, u64),
    /// Lowest and highest value.
    SignedRange(i64, i64),
    /// An object of this type.
    Object(u64),
    /// A property blob; no array.
    Blob,
    /// A named value; no array.
    Enum,
}

/// A property.
#[derive(Debug, Clone, Copy)]
pub struct PropDef {
    pub id: u32,
    pub name: &'static str,
    pub kind: PropKind,
}

/// The kind of property `id`.
pub open spec fn kind_of(id: u32) -> Option<PropKind> {
    if id == PROP_TYPE {
        Some(PropKind::Enum)
    } else if id == PROP_PLANE_CRTC_ID || id == PROP_CONN_CRTC_ID {
        Some(PropKind::Object(DRM_MODE_OBJECT_CRTC))
    } else if id == PROP_FB_ID {
        Some(PropKind::Object(DRM_MODE_OBJECT_FB))
    } else if id == PROP_CRTC_X || id == PROP_CRTC_Y {
        Some(PropKind::SignedRange(-0x8000_0000i64 as i64, 0x7fff_ffff))
    } else if PROP_SRC_X <= id <= PROP_CRTC_H {
        Some(PropKind::Range(0, 0xffff_ffff))
    } else if id == PROP_FB_DAMAGE_CLIPS || id == PROP_MODE_ID {
        Some(PropKind::Blob)
    } else if id == PROP_ACTIVE {
        Some(PropKind::Range(0, 1))
    } else {
        None
    }
}

/// The name of property `id`.
pub open spec fn name_of(id: u32) -> Seq<char> {
    if id == PROP_TYPE {
        "type"@
    } else if id == PROP_PLANE_CRTC_ID || id == PROP_CONN_CRTC_ID {
        "CRTC_ID"@
    } else if id == PROP_FB_ID {
        "FB_ID"@
    } else if id == PROP_SRC_X {
        "SRC_X"@
    } else if id == PROP_SRC_Y {
        "SRC_Y"@
    } else if id == PROP_SRC_W {
        "SRC_W"@
    } else if id == PROP_SRC_H {
        "SRC_H"@
    } else if id == PROP_CRTC_X {
        "CRTC_X"@
    } else if id == PROP_CRTC_Y {
        "CRTC_Y"@
    } else if id == PROP_CRTC_W {
        "CRTC_W"@
    } else if id == PROP_CRTC_H {
        "CRTC_H"@
    } else if id == PROP_FB_DAMAGE_CLIPS {
        "FB_DAMAGE_CLIPS"@
    } else if id == PROP_ACTIVE {
        "ACTIVE"@
    } else {
        "MODE_ID"@
    }
}

/// The property with the given id.
pub fn prop_def(id: u32) -> (r: Option<PropDef>)
    ensures
        match kind_of(id) {
            Some(kind) => r matches Some(d) && d.id == id && d.kind == kind && d.name@ == name_of(
                id,
            ),
            None => r is None,
        },
{
    let word = PropKind::Range(0, 0xffff_ffff);
    let place = PropKind::SignedRange(-0x8000_0000, 0x7fff_ffff);
    let (name, kind) = match id {
        PROP_TYPE => ("type", PropKind::Enum),
        PROP_PLANE_CRTC_ID => ("CRTC_ID", PropKind::Object(DRM_MODE_OBJECT_CRTC)),
        PROP_FB_ID => ("FB_ID", PropKind::Object(DRM_MODE_OBJECT_FB)),
        PROP_SRC_X => ("SRC_X", word),
        PROP_SRC_Y => ("SRC_Y", word),
        PROP_SRC_W => ("SRC_W", word),
        PROP_SRC_H => ("SRC_H", word),
        PROP_CRTC_X => ("CRTC_X", place),
        PROP_CRTC_Y => ("CRTC_Y", place),
        PROP_CRTC_W => ("CRTC_W", word),
        PROP_CRTC_H => ("CRTC_H", word),
        PROP_FB_DAMAGE_CLIPS => ("FB_DAMAGE_CLIPS", PropKind::Blob),
        PROP_ACTIVE => ("ACTIVE", PropKind::Range(0, 1)),
        PROP_MODE_ID => ("MODE_ID", PropKind::Blob),
        PROP_CONN_CRTC_ID => ("CRTC_ID", PropKind::Object(DRM_MODE_OBJECT_CRTC)),
        _ => {
            return None;
        },
    };
    Some(PropDef { id, name, kind })
}

/// The flag word of a kind.
pub fn prop_flags(kind: PropKind) -> (r: u32)
    ensures
        r == (match kind {
            PropKind::Range(_, _) => DRM_MODE_PROP_RANGE,
            PropKind::SignedRange(_, _) => DRM_MODE_PROP_SIGNED_RANGE,
            PropKind::Object(_) => DRM_MODE_PROP_OBJECT,
            PropKind::Blob => DRM_MODE_PROP_BLOB,
            PropKind::Enum => DRM_MODE_PROP_ENUM,
        }),
{
    match kind {
        PropKind::Range(_, _) => DRM_MODE_PROP_RANGE,
        PropKind::SignedRange(_, _) => DRM_MODE_PROP_SIGNED_RANGE,
        PropKind::Object(_) => DRM_MODE_PROP_OBJECT,
        PropKind::Blob => DRM_MODE_PROP_BLOB,
        PropKind::Enum => DRM_MODE_PROP_ENUM,
    }
}

/// The value array that a property reports.
pub open spec fn values_of(kind: PropKind) -> Seq<u64> {
    match kind {
        PropKind::Range(min, max) => seq![min, max],
        PropKind::SignedRange(min, max) => seq![min as u64, max as u64],
        PropKind::Object(ty) => seq![ty],
        PropKind::Blob => Seq::empty(),
        PropKind::Enum => Seq::empty(),
    }
}

/// The value array that a property reports.
pub fn prop_values(kind: PropKind) -> (r: Vec<u64>)
    ensures
        r@ == values_of(kind),
{
    let r = match kind {
        PropKind::Range(min, max) => vec![min, max],
        PropKind::SignedRange(min, max) => vec![min as u64, max as u64],
        PropKind::Object(ty) => vec![ty],
        PropKind::Blob => Vec::new(),
        PropKind::Enum => Vec::new(),
    };
    assert(r@ =~= values_of(kind));
    r
}

/// How many values a property reports.
pub fn prop_value_count(kind: PropKind) -> (r: u32)
    ensures
        r == values_of(kind).len(),
{
    match kind {
        PropKind::Range(_, _) => 2,
        PropKind::SignedRange(_, _) => 2,
        PropKind::Object(_) => 1,
        PropKind::Blob => 0,
        PropKind::Enum => 0,
    }
}

/// The properties that a plane has; the primary one takes damage clips, the
/// cursor plane is always uploaded whole.
pub open spec fn plane_props(obj_id: u32) -> Seq<u32> {
    let common = seq![
        PROP_TYPE,
        PROP_PLANE_CRTC_ID,
        PROP_FB_ID,
        PROP_SRC_X,
        PROP_SRC_Y,
        PROP_SRC_W,
        PROP_SRC_H,
        PROP_CRTC_X,
        PROP_CRTC_Y,
        PROP_CRTC_W,
        PROP_CRTC_H,
    ];
    if obj_id == DRM_PLANE_ID {
        common.push(PROP_FB_DAMAGE_CLIPS)
    } else if obj_id == DRM_CURSOR_PLANE_ID {
        common
    } else {
        Seq::empty()
    }
}

/// The properties of an object, in the order they are reported. The type tells
/// the crtc and the connector apart, which share id 1; without a known type only
/// the planes are unambiguous.
pub open spec fn props_of(obj_id: u32, obj_type: u32) -> Seq<u32> {
    if obj_type == DRM_MODE_OBJECT_CRTC_T && obj_id == DRM_CRTC_ID {
        seq![PROP_ACTIVE, PROP_MODE_ID]
    } else if obj_type == DRM_MODE_OBJECT_CONNECTOR_T && obj_id == DRM_CONNECTOR_ID {
        seq![PROP_CONN_CRTC_ID]
    } else {
        plane_props(obj_id)
    }
}

/// The properties of an object, in the order they are reported.
pub fn object_props(obj_id: u32, obj_type: u32) -> (r: Vec<u32>)
    ensures
        r@ == props_of(obj_id, obj_type),
{
    let mut r: Vec<u32> = Vec::new();
    if obj_type == DRM_MODE_OBJECT_CRTC_T && obj_id == DRM_CRTC_ID {
        r.push(PROP_ACTIVE);
        r.push(PROP_MODE_ID);
    } else if obj_type == DRM_MODE_OBJECT_CONNECTOR_T && obj_id == DRM_CONNECTOR_ID {
        r.push(PROP_CONN_CRTC_ID);
    } else if obj_id == DRM_PLANE_ID || obj_id == DRM_CURSOR_PLANE_ID {
        let mut p: u32 = PROP_TYPE;
        while p <= PROP_CRTC_H
            invariant
                PROP_TYPE <= p <= PROP_CRTC_H + 1,
                r.len() == p - PROP_TYPE,
                forall|i: int| 0 <= i < r.len() ==> r@[i] == PROP_TYPE + i,
            decreases PROP_CRTC_H + 1 - p,
        {
            r.push(p);
            p += 1;
        }
        if obj_id == DRM_PLANE_ID {
            r.push(PROP_FB_DAMAGE_CLIPS);
        }
    }
    assert(r@ =~= props_of(obj_id, obj_type));
    r
}

/// The current value of a property. Only the type of a plane is ever read back;
/// everything else reads as unset.
pub open spec fn value_of(obj_id: u32, prop_id: u32) -> u64 {
    if prop_id == PROP_TYPE {
        if obj_id == DRM_CURSOR_PLANE_ID {
            DRM_PLANE_TYPE_CURSOR as u64
        } else {
            DRM_PLANE_TYPE_PRIMARY as u64
        }
    } else {
        0
    }
}

/// The current value of a property.
pub fn current_prop_value(obj_id: u32, prop_id: u32) -> (r: u64)
    ensures
        r == value_of(obj_id, prop_id),
{
    if prop_id == PROP_TYPE {
        if obj_id == DRM_CURSOR_PLANE_ID {
            DRM_PLANE_TYPE_CURSOR as u64
        } else {
            DRM_PLANE_TYPE_PRIMARY as u64
        }
    } else {
        0
    }
}

/// An array that is read in two passes: the caller learns the count first and
/// passes room for it next. It is filled only if there is room for all of it.
pub open spec fn fills(ptr: u64, room: u32, len: int) -> bool {
    ptr != 0 && room >= len
}

/// The properties of an object and their values.
pub struct ObjectProperties {
    pub ids: Vec<u32>,
    pub values: Vec<u64>,
    /// Whether the caller's arrays are to be filled.
    pub fill: bool,
}

/// Lists the properties of an object. The count that is reported is that of
/// `ids`, whether or not the caller's arrays are filled.
pub fn std_handle_obj_get_properties(
    obj_id: u32,
    obj_type: u32,
    props_ptr: u64,
    vals_ptr: u64,
    room: u32,
) -> (r: ObjectProperties)
    ensures
        r.ids@ == props_of(obj_id, obj_type),
        r.values@.len() == r.ids@.len(),
        forall|i: int|
            0 <= i < r.ids@.len() ==> #[trigger] r.values@[i] == value_of(obj_id, r.ids@[i]),
        r.fill == (fills(props_ptr, room, r.ids@.len() as int) && vals_ptr != 0),
{
    let ids = object_props(obj_id, obj_type);
    let mut values: Vec<u64> = Vec::new();
    let mut i: usize = 0;
    while i < ids.len()
        invariant
            i <= ids.len(),
            values.len() == i,
            forall|k: int| 0 <= k < i ==> #[trigger] values@[k] == value_of(obj_id, ids@[k]),
        decreases ids.len() - i,
    {
        values.push(current_prop_value(obj_id, ids[i]));
        i += 1;
    }
    let fill = props_ptr != 0 && vals_ptr != 0 && room as usize >= ids.len();
    ObjectProperties { ids, values, fill }
}

/// The description of a property.
pub struct PropertyReply {
    pub flags: u32,
    pub name: [u8; 32],
    pub values: Vec<u64>,
    /// Whether the caller's value array is to be filled.
    pub fill: bool,
}

/// Describes a property. The number of values depends on the property alone, so
/// both passes of a caller see the same one.
pub fn std_handle_get_property(prop_id: u32, values_ptr: u64, room: u32) -> (r: Result<
    PropertyReply,
    DriverError,
>)
    ensures
        match kind_of(prop_id) {
            Some(kind) => {
                &&& r matches Ok(p)
                &&& p.name@ == name_field(name_of(prop_id))
                &&& p.values@ == values_of(kind)
                &&& p.fill == (fills(values_ptr, room, values_of(kind).len() as int) && values_of(
                    kind,
                ).len() > 0)
                &&& p.flags == (match kind {
                    PropKind::Range(_, _) => DRM_MODE_PROP_RANGE,
                    PropKind::SignedRange(_, _) => DRM_MODE_PROP_SIGNED_RANGE,
                    PropKind::Object(_) => DRM_MODE_PROP_OBJECT,
                    PropKind::Blob => DRM_MODE_PROP_BLOB,
                    PropKind::Enum => DRM_MODE_PROP_ENUM,
                })
            },
            None => r matches Err(e) && e == DriverError::Unsupported,
        },
{
    let def = match prop_def(prop_id) {
        Some(d) => d,
        None => {
            return Err(DriverError::Unsupported);
        },
    };
    let count = prop_value_count(def.kind);
    Ok(
        PropertyReply {
            flags: prop_flags(def.kind),
            name: fill_name(def.name),
            values: prop_values(def.kind),
            fill: values_ptr != 0 && room >= count && count > 0,
        },
    )
}

/// Little-endian XRGB, 8 bits each.
pub const FOURCC_XR24: u32 = 0x3432_5258;

/// Little-endian ARGB, 8 bits each.
pub const FOURCC_AR24: u32 = 0x3432_5241;

/// What a plane is bound to, and the pixel formats it takes.
#[derive(Debug)]
pub struct PlaneReply {
    /// None: nobody is told what the plane shows.
    pub crtc_id: u32,
    pub fb_id: u32,
    /// The first crtc, as a mask.
    pub possible_crtcs: u32,
    pub gamma_size: u32,
    pub formats: Vec<u32>,
}

/// The formats of a plane. The host blends the cursor, so that one needs alpha.
pub open spec fn formats_of(plane_id: u32) -> Seq<u32> {
    if plane_id == DRM_CURSOR_PLANE_ID {
        seq![FOURCC_AR24]
    } else {
        seq![FOURCC_XR24, FOURCC_AR24]
    }
}

/// Describes a plane.
pub fn std_handle_get_plane(plane_id: u32) -> (r: Result<PlaneReply, DriverError>)
    ensures
        match r {
            Ok(p) => p.crtc_id == 0 && p.fb_id == 0 && p.possible_crtcs == 1 && p.gamma_size == 0
                && p.formats@ == formats_of(plane_id),
            Err(e) => e == DriverError::NotFound,
        },
        r is Ok <==> plane_id == DRM_PLANE_ID || plane_id == DRM_CURSOR_PLANE_ID,
{
    let formats = if plane_id == DRM_CURSOR_PLANE_ID {
        vec![FOURCC_AR24]
    } else if plane_id == DRM_PLANE_ID {
        vec![FOURCC_XR24, FOURCC_AR24]
    } else {
        return Err(DriverError::NotFound);
    };
    assert(formats@ =~= formats_of(plane_id));
    Ok(PlaneReply { crtc_id: 0, fb_id: 0, possible_crtcs: 1, gamma_size: 0, formats })
}

/// The planes there are.
pub fn std_handle_get_plane_resources() -> (r: Vec<u32>)
    ensures
        r@ == seq![DRM_PLANE_ID, DRM_CURSOR_PLANE_ID],
{
    let r = vec![DRM_PLANE_ID, DRM_CURSOR_PLANE_ID];
    assert(r@ =~= seq![DRM_PLANE_ID, DRM_CURSOR_PLANE_ID]);
    r
}

/// Whether an array that is read in two passes is to be filled.
pub fn fill_array(ptr: u64, room: u32, len: u32) -> (r: bool)
    ensures
        r == fills(ptr, room, len as int),
{
    ptr != 0 && room >= len
}

/// Every property that an object lists is defined.
pub proof fn lemma_listed_properties_are_defined(obj_id: u32, obj_type: u32, i: int)
    requires
        0 <= i < props_of(obj_id, obj_type).len(),
    ensures
        kind_of(props_of(obj_id, obj_type)[i]) is Some,
{
}

/// Only blobs and enumerations report no value: a reader that takes the first
/// value of a range or an object unseen always finds one.
pub proof fn lemma_ranges_and_objects_have_values(id: u32)
    requires
        kind_of(id) is Some,
    ensures
        values_of(kind_of(id)->Some_0).len() == 0 <==> kind_of(id)->Some_0 is Blob || kind_of(
            id,
        )->Some_0 is Enum,
        kind_of(id)->Some_0 is Range || kind_of(id)->Some_0 is SignedRange ==> values_of(
            kind_of(id)->Some_0,
        ).len() == 2,
{
}

/// A property tells what kind of object it belongs to.
pub proof fn lemma_property_tells_the_object(id: u32, plane: u32)
    requires
        plane == DRM_PLANE_ID || plane == DRM_CURSOR_PLANE_ID,
    ensures
        !(props_of(plane, DRM_MODE_OBJECT_PLANE).contains(id) && props_of(
            DRM_CRTC_ID,
            DRM_MODE_OBJECT_CRTC_T,
        ).contains(id)),
        !(props_of(plane, DRM_MODE_OBJECT_PLANE).contains(id) && props_of(
            DRM_CONNECTOR_ID,
            DRM_MODE_OBJECT_CONNECTOR_T,
        ).contains(id)),
        !(props_of(DRM_CRTC_ID, DRM_MODE_OBJECT_CRTC_T).contains(id) && props_of(
            DRM_CONNECTOR_ID,
            DRM_MODE_OBJECT_CONNECTOR_T,
        ).contains(id)),
{
}

} // verus!
