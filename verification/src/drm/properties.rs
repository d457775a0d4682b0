//! Properties: named values with a type that limits them.
use crate::drm::objects::{DrmObject, DrmObjectId, DrmObjectType, IdCounter};
use crate::drm::property_flags;
use crate::registry::{bound, store, take};
use std::collections::BTreeMap;
use vstd::prelude::*;

verus! {

/// Types of property.
#[derive(Debug, Clone, Copy, PartialEq, Eq, Structural)]
pub enum DrmPropertyType {
    Range,
    Enum,
    Blob,
    Bitmask,
    Object,
    SignedRange,
}

impl DrmPropertyType {
    /// The type's code.
    pub fn code(self) -> (r: u32)
        ensures
            r == (match self {
                DrmPropertyType::Range => 1u32,
                DrmPropertyType::Enum => 2,
                DrmPropertyType::Blob => 3,
                DrmPropertyType::Bitmask => 4,
                DrmPropertyType::Object => 5,
                DrmPropertyType::SignedRange => 6,
            }),
    {
        match self {
            DrmPropertyType::Range => 1,
            DrmPropertyType::Enum => 2,
            DrmPropertyType::Blob => 3,
            DrmPropertyType::Bitmask => 4,
            DrmPropertyType::Object => 5,
            DrmPropertyType::SignedRange => 6,
        }
    }
}

/// The value of a property.
#[derive(Debug, Clone)]
pub enum DrmPropertyValue {
    Range(u64),
    /// The place of a named value in the property's list.
    Enum(u32),
    Blob(Vec<u8>),
    Bitmask(u64),
    Object(DrmObjectId),
    SignedRange(i64),
}

/// A named value.
#[derive(Debug, Clone)]
pub struct DrmEnumValue {
    pub value: u64,
    pub name: String,
}

/// A property.
pub struct DrmProperty {
    pub id: DrmObjectId,
    pub name: String,
    pub property_type: DrmPropertyType,
    pub flags: u32,
    /// The limits of a range, the numbers of the named values, the supported
    /// bits, or the type of object.
    pub values: Vec<u64>,
    pub enum_values: Vec<DrmEnumValue>,
    pub blob_ids: Vec<u32>,
    pub current_value: Option<DrmPropertyValue>,
}

/// Bit `b` is set in `mask`.
pub open spec fn has_bit(mask: u64, b: u64) -> bool {
    (mask >> b) & 1 == 1
}

/// Why `value` cannot be set on `p`, if it cannot.
pub open spec fn objection(p: DrmProperty, value: DrmPropertyValue) -> Option<Seq<char>> {
    if p.flags & property_flags::IMMUTABLE != 0 {
        Some("Property is immutable"@)
    } else {
        match (p.property_type, value) {
            (DrmPropertyType::Range, DrmPropertyValue::Range(v)) => if p.values@.len() >= 2 && !(
            p.values@[0] <= v <= p.values@[1]) {
                Some("Value out of range"@)
            } else {
                None
            },
            (DrmPropertyType::SignedRange, DrmPropertyValue::SignedRange(v)) => if p.values@.len()
                >= 2 && !((p.values@[0] as i64) <= v <= (p.values@[1] as i64)) {
                Some("Value out of signed range"@)
            } else {
                None
            },
            (DrmPropertyType::Enum, DrmPropertyValue::Enum(i)) => if i >= p.enum_values@.len() {
                Some("Invalid enum index"@)
            } else {
                None
            },
            (DrmPropertyType::Bitmask, DrmPropertyValue::Bitmask(m)) => if exists|b: u64|
                b < 64 && #[trigger] has_bit(m, b) && !p.values@.contains(b) {
                Some("Unsupported bits in mask"@)
            } else {
                None
            },
            (DrmPropertyType::Blob, DrmPropertyValue::Blob(_)) => None,
            (DrmPropertyType::Object, DrmPropertyValue::Object(_)) => None,
            _ => Some("Type mismatch"@),
        }
    }
}

/// Whether `list` holds `v`.
fn holds(list: &Vec<u64>, v: u64) -> (r: bool)
    ensures
        r == list@.contains(v),
{
    let mut i: usize = 0;
    while i < list.len()
        invariant
            i <= list.len(),
            forall|k: int| 0 <= k < i ==> list@[k] != v,
        decreases list.len() - i,
    {
        if list[i] == v {
            assert(list@[i as int] == v);
            return true;
        }
        i += 1;
    }
    false
}

/// Whether every bit of `mask` is in `bits`.
fn bits_supported(mask: u64, bits: &Vec<u64>) -> (r: bool)
    ensures
        r == !(exists|b: u64| b < 64 && #[trigger] has_bit(mask, b) && !bits@.contains(b)),
{
    let mut b: u64 = 0;
    while b < 64
        invariant
            b <= 64,
            forall|k: u64| k < b && #[trigger] has_bit(mask, k) ==> bits@.contains(k),
        decreases 64 - b,
    {
        if (mask >> b) & 1 == 1 && !holds(bits, b) {
            assert(has_bit(mask, b));
            return false;
        }
        b += 1;
    }
    true
}

/// A property without a list of names or blobs.
pub open spec fn is_plain(
    p: DrmProperty,
    name: Seq<char>,
    ty: DrmPropertyType,
    flags: u32,
    values: Seq<u64>,
) -> bool {
    p.name@ == name && p.property_type == ty && p.flags == flags && p.values@ == values
        && p.enum_values@.len() == 0 && p.blob_ids@.len() == 0
}

/// `p` is a range.
pub open spec fn is_range(p: DrmProperty, name: Seq<char>, min: u64, max: u64, v: u64) -> bool {
    is_plain(p, name, DrmPropertyType::Range, 0x8000_0002, seq![min, max]) && p.current_value
        == Some(DrmPropertyValue::Range(v))
}

/// `p` is a signed range.
pub open spec fn is_signed_range(
    p: DrmProperty,
    name: Seq<char>,
    min: i64,
    max: i64,
    v: i64,
) -> bool {
    is_plain(p, name, DrmPropertyType::SignedRange, 0x8000_0002, seq![min as u64, max as u64])
        && p.current_value == Some(DrmPropertyValue::SignedRange(v))
}

/// `p` refers to an object of a type with the given code.
pub open spec fn is_object(p: DrmProperty, name: Seq<char>, code: u64, v: Option<DrmObjectId>) -> bool {
    is_plain(p, name, DrmPropertyType::Object, 0x8000_0000, seq![code]) && p.current_value == (
    match v {
        Some(id) => Some(DrmPropertyValue::Object(id)),
        None => None,
    })
}

/// `list` names the values 0, 1, 2, ... in order.
pub open spec fn names_in_order(list: Seq<DrmEnumValue>, names: Seq<Seq<char>>) -> bool {
    &&& list.len() == names.len()
    &&& forall|i: int|
        0 <= i < list.len() ==> (#[trigger] list[i]).value == i && list[i].name@ == names[i]
}

/// `p` is an enumeration of the given names.
pub open spec fn is_enum(p: DrmProperty, name: Seq<char>, names: Seq<Seq<char>>, v: u32) -> bool {
    &&& p.name@ == name && p.property_type is Enum && p.flags == 0x8000_0008
        && p.blob_ids@.len() == 0
    &&& names_in_order(p.enum_values@, names)
    &&& p.values@.len() == names.len()
    &&& forall|i: int| 0 <= i < p.values@.len() ==> #[trigger] p.values@[i] == i
    &&& p.current_value == Some(DrmPropertyValue::Enum(v))
}

impl DrmProperty {
    /// The value there is, if any, could be set again.
    pub open spec fn holds_valid(&self) -> bool {
        self.current_value matches Some(v) ==> objection(*self, v) is None
    }

    /// A number between two limits.
    pub fn new_range(name: String, min: u64, max: u64, initial: u64, ids: &mut IdCounter) -> (p: Self)
        requires
            old(ids).next < u32::MAX,
        ensures
            p.id.0 == old(ids).next,
            final(ids).next == old(ids).next + 1,
            is_range(p, name@, min, max, initial),
    {
        let values = vec![min, max];
        assert(values@ =~= seq![min, max]);
        assert(2u32 | 0x8000_0000u32 == 0x8000_0002) by (bit_vector);
        DrmProperty {
            id: DrmObjectId::new(ids),
            name,
            property_type: DrmPropertyType::Range,
            flags: property_flags::RANGE | property_flags::ATOMIC,
            values,
            enum_values: Vec::new(),
            blob_ids: Vec::new(),
            current_value: Some(DrmPropertyValue::Range(initial)),
        }
    }

    /// A signed number between two limits.
    pub fn new_signed_range(
        name: String,
        min: i64,
        max: i64,
        initial: i64,
        ids: &mut IdCounter,
    ) -> (p: Self)
        requires
            old(ids).next < u32::MAX,
        ensures
            p.id.0 == old(ids).next,
            final(ids).next == old(ids).next + 1,
            is_signed_range(p, name@, min, max, initial),
    {
        let values = vec![min as u64, max as u64];
        assert(values@ =~= seq![min as u64, max as u64]);
        assert(2u32 | 0x8000_0000u32 == 0x8000_0002) by (bit_vector);
        DrmProperty {
            id: DrmObjectId::new(ids),
            name,
            property_type: DrmPropertyType::SignedRange,
            flags: property_flags::RANGE | property_flags::ATOMIC,
            values,
            enum_values: Vec::new(),
            blob_ids: Vec::new(),
            current_value: Some(DrmPropertyValue::SignedRange(initial)),
        }
    }

    /// One of a list of named values; unset if the initial one is not in the
    /// list.
    pub fn new_enum(
        name: String,
        enum_values: Vec<DrmEnumValue>,
        initial_index: usize,
        ids: &mut IdCounter,
    ) -> (p: Self)
        requires
            old(ids).next < u32::MAX,
        ensures
            p.id.0 == old(ids).next,
            final(ids).next == old(ids).next + 1,
            p.name@ == name@ && p.property_type is Enum && p.flags == 0x8000_0008
                && p.blob_ids@.len() == 0,
            p.enum_values == enum_values,
            p.values@.len() == enum_values@.len(),
            forall|i: int|
                0 <= i < p.values@.len() ==> #[trigger] p.values@[i] == enum_values@[i].value,
            p.current_value == (if initial_index < enum_values@.len() {
                Some(DrmPropertyValue::Enum(initial_index as u32))
            } else {
                None
            }),
    {
        let mut values: Vec<u64> = Vec::new();
        let mut i: usize = 0;
        while i < enum_values.len()
            invariant
                i <= enum_values.len(),
                values.len() == i,
                forall|k: int| 0 <= k < i ==> #[trigger] values@[k] == enum_values@[k].value,
            decreases enum_values.len() - i,
        {
            values.push(enum_values[i].value);
            i += 1;
        }
        assert(8u32 | 0x8000_0000u32 == 0x8000_0008) by (bit_vector);
        let current_value = if initial_index < enum_values.len() {
            Some(DrmPropertyValue::Enum(initial_index as u32))
        } else {
            None
        };
        DrmProperty {
            id: DrmObjectId::new(ids),
            name,
            property_type: DrmPropertyType::Enum,
            flags: property_flags::ENUM | property_flags::ATOMIC,
            values,
            enum_values,
            blob_ids: Vec::new(),
            current_value,
        }
    }

    /// A string of bytes.
    pub fn new_blob(name: String, data: Vec<u8>, ids: &mut IdCounter) -> (p: Self)
        requires
            old(ids).next < u32::MAX,
        ensures
            p.id.0 == old(ids).next,
            final(ids).next == old(ids).next + 1,
            is_plain(p, name@, DrmPropertyType::Blob, 0x8000_0010, Seq::empty()),
            p.current_value == Some(DrmPropertyValue::Blob(data)),
    {
        assert(16u32 | 0x8000_0000u32 == 0x8000_0010) by (bit_vector);
        DrmProperty {
            id: DrmObjectId::new(ids),
            name,
            property_type: DrmPropertyType::Blob,
            flags: property_flags::BLOB | property_flags::ATOMIC,
            values: Vec::new(),
            enum_values: Vec::new(),
            blob_ids: Vec::new(),
            current_value: Some(DrmPropertyValue::Blob(data)),
        }
    }

    /// A set of bits.
    pub fn new_bitmask(name: String, supported_bits: Vec<u64>, initial: u64, ids: &mut IdCounter) -> (p:
        Self)
        requires
            old(ids).next < u32::MAX,
        ensures
            p.id.0 == old(ids).next,
            final(ids).next == old(ids).next + 1,
            is_plain(p, name@, DrmPropertyType::Bitmask, 0x8000_0020, supported_bits@),
            p.current_value == Some(DrmPropertyValue::Bitmask(initial)),
    {
        assert(32u32 | 0x8000_0000u32 == 0x8000_0020) by (bit_vector);
        DrmProperty {
            id: DrmObjectId::new(ids),
            name,
            property_type: DrmPropertyType::Bitmask,
            flags: property_flags::BITMASK | property_flags::ATOMIC,
            values: supported_bits,
            enum_values: Vec::new(),
            blob_ids: Vec::new(),
            current_value: Some(DrmPropertyValue::Bitmask(initial)),
        }
    }

    /// A reference to an object.
    pub fn new_object(
        name: String,
        object_type: DrmObjectType,
        initial: Option<DrmObjectId>,
        ids: &mut IdCounter,
    ) -> (p: Self)
        requires
            old(ids).next < u32::MAX,
        ensures
            p.id.0 == old(ids).next,
            final(ids).next == old(ids).next + 1,
            is_object(p, name@, type_code(object_type), initial),
    {
        let values = vec![object_type.code() as u64];
        assert(values@ =~= seq![type_code(object_type)]);
        DrmProperty {
            id: DrmObjectId::new(ids),
            name,
            property_type: DrmPropertyType::Object,
            flags: property_flags::ATOMIC,
            values,
            enum_values: Vec::new(),
            blob_ids: Vec::new(),
            current_value: match initial {
                Some(id) => Some(DrmPropertyValue::Object(id)),
                None => None,
            },
        }
    }

    /// Sets the value if the property can be changed and the value is of its
    /// type and within its limits; otherwise says why not and changes nothing.
    pub fn set_value(&mut self, value: DrmPropertyValue) -> (r: Result<(), &'static str>)
        requires
            old(self).property_type is Bitmask ==> forall|i: int|
                0 <= i < old(self).values@.len() ==> #[trigger] old(self).values@[i] < 64,
        ensures
            match objection(*old(self), value) {
                Some(why) => r matches Err(m) && m@ == why && *final(self) == *old(self),
                None => r is Ok && *final(self) == (DrmProperty {
                    current_value: Some(value),
                    ..*old(self)
                }),
            },
    {
        if self.flags & property_flags::IMMUTABLE != 0 {
            return Err("Property is immutable");
        }
        match (&self.property_type, &value) {
            (DrmPropertyType::Range, DrmPropertyValue::Range(v)) => {
                if self.values.len() >= 2 {
                    let min = self.values[0];
                    let max = self.values[1];
                    if *v < min || *v > max {
                        return Err("Value out of range");
                    }
                }
            },
            (DrmPropertyType::SignedRange, DrmPropertyValue::SignedRange(v)) => {
                if self.values.len() >= 2 {
                    let min = self.values[0] as i64;
                    let max = self.values[1] as i64;
                    if *v < min || *v > max {
                        return Err("Value out of signed range");
                    }
                }
            },
            (DrmPropertyType::Enum, DrmPropertyValue::Enum(i)) => {
                if *i as usize >= self.enum_values.len() {
                    return Err("Invalid enum index");
                }
            },
            (DrmPropertyType::Bitmask, DrmPropertyValue::Bitmask(mask)) => {
                if !bits_supported(*mask, &self.values) {
                    return Err("Unsupported bits in mask");
                }
            },
            (DrmPropertyType::Blob, DrmPropertyValue::Blob(_)) => {},
            (DrmPropertyType::Object, DrmPropertyValue::Object(_)) => {},
            _ => {
                return Err("Type mismatch");
            },
        }
        self.current_value = Some(value);
        Ok(())
    }

    /// The current value.
    pub fn get_value(&self) -> (r: Option<&DrmPropertyValue>)
        ensures
            match r {
                Some(v) => self.current_value == Some(*v),
                None => self.current_value is None,
            },
    {
        self.current_value.as_ref()
    }
}

/// The code of an object type, as a property value.
pub open spec fn type_code(t: DrmObjectType) -> u64 {
    match t {
        DrmObjectType::Crtc => 0xcccc_cccc,
        DrmObjectType::Connector => 0xc0c0_c0c0,
        DrmObjectType::Encoder => 0xe0e0_e0e0,
        DrmObjectType::Mode => 0xdede_dede,
        DrmObjectType::Property => 0xb0b0_b0b0,
        DrmObjectType::Plane => 0xeeee_eeee,
        DrmObjectType::Blob => 0xbbbb_bbbb,
    }
}

impl DrmObject for DrmProperty {
    open spec fn obj_id(&self) -> DrmObjectId {
        self.id
    }

    open spec fn obj_type(&self) -> DrmObjectType {
        DrmObjectType::Property
    }

    fn id(&self) -> (r: DrmObjectId) {
        self.id
    }

    fn object_type(&self) -> (r: DrmObjectType) {
        DrmObjectType::Property
    }
}

/// Whatever was set could be set again: a property never holds a value outside
/// its type and limits once one was set.
pub proof fn lemma_value_stays_valid(p: DrmProperty, value: DrmPropertyValue)
    requires
        objection(p, value) is None,
    ensures
        (DrmProperty { current_value: Some(value), ..p }).holds_valid(),
{
}

/// A property of an object and its value.
pub struct ObjectProperty {
    pub object_id: DrmObjectId,
    pub property_id: DrmObjectId,
    pub value: DrmPropertyValue,
}

/// The properties there are, and which objects have which.
pub struct PropertyManager {
    properties: BTreeMap<u32, DrmProperty>,
    object_properties: BTreeMap<u32, Vec<DrmObjectId>>,
}

/// The manager as a value.
#[verifier::ext_equal]
pub struct PropertyTable {
    /// Properties by id.
    pub properties: Map<u32, DrmProperty>,
    /// For an object that has properties: which, in the order they were attached.
    pub attached: Map<u32, Seq<DrmObjectId>>,
}

impl View for PropertyManager {
    type V = PropertyTable;

    closed spec fn view(&self) -> PropertyTable {
        PropertyTable {
            properties: self.properties@,
            attached: self.object_properties@.map_values(|v: Vec<DrmObjectId>| v@),
        }
    }
}

impl PropertyTable {
    /// Why the value of a property of an object cannot be set, if it cannot.
    pub open spec fn set_objection(
        self,
        object_id: DrmObjectId,
        property_id: DrmObjectId,
        value: DrmPropertyValue,
    ) -> Option<Seq<char>> {
        if !self.attached.contains_key(object_id.0) {
            Some("Object has no properties"@)
        } else if !self.attached[object_id.0].contains(property_id) {
            Some("Property not attached to object"@)
        } else if !self.properties.contains_key(property_id.0) {
            Some("Property not found"@)
        } else {
            objection(self.properties[property_id.0], value)
        }
    }

    /// The table with the value of a property set.
    pub open spec fn set(self, property_id: DrmObjectId, value: DrmPropertyValue) -> PropertyTable {
        let p = self.properties[property_id.0];
        PropertyTable {
            properties: self.properties.insert(
                property_id.0,
                DrmProperty { current_value: Some(value), ..p },
            ),
            ..self
        }
    }

    /// The value of a property.
    pub open spec fn value_of(self, property_id: DrmObjectId) -> Option<DrmPropertyValue> {
        if self.properties.contains_key(property_id.0) {
            self.properties[property_id.0].current_value
        } else {
            None
        }
    }

    /// The bits that bitmasks support are bits.
    pub open spec fn masks_ok(self) -> bool {
        forall|id: u32, i: int|
            #![trigger self.properties[id].values@[i]]
            self.properties.contains_key(id) && self.properties[id].property_type is Bitmask && 0
                <= i < self.properties[id].values@.len() ==> self.properties[id].values@[i] < 64
    }
}

/// Whether `list` holds `id`.
fn holds_id(list: &Vec<DrmObjectId>, id: DrmObjectId) -> (r: bool)
    ensures
        r == list@.contains(id),
{
    let mut i: usize = 0;
    while i < list.len()
        invariant
            i <= list.len(),
            forall|k: int| 0 <= k < i ==> list@[k] != id,
        decreases list.len() - i,
    {
        if list[i] == id {
            assert(list@[i as int] == id);
            return true;
        }
        i += 1;
    }
    false
}

impl PropertyManager {
    /// No properties.
    pub fn new() -> (m: Self)
        ensures
            m@ == (PropertyTable { properties: Map::empty(), attached: Map::empty() }),
    {
        let m = PropertyManager { properties: BTreeMap::new(), object_properties: BTreeMap::new() };
        assert(m@ =~= PropertyTable { properties: Map::empty(), attached: Map::empty() });
        m
    }

    /// Registers a property under its id.
    pub fn add_property(&mut self, property: DrmProperty) -> (id: DrmObjectId)
        ensures
            id == property.id,
            final(self)@ == (PropertyTable {
                properties: old(self)@.properties.insert(property.id.0, property),
                ..old(self)@
            }),
    {
        let id = property.id();
        store(&mut self.properties, id.0, property);
        id
    }

    /// Gives an object a property; one that it has already is not added again.
    pub fn attach_property(&mut self, object_id: DrmObjectId, property_id: DrmObjectId)
        ensures
            ({
                let had = if old(self)@.attached.contains_key(object_id.0) {
                    old(self)@.attached[object_id.0]
                } else {
                    Seq::empty()
                };
                final(self)@ == (PropertyTable {
                    attached: old(self)@.attached.insert(
                        object_id.0,
                        if had.contains(property_id) {
                            had
                        } else {
                            had.push(property_id)
                        },
                    ),
                    ..old(self)@
                })
            }),
    {
        let ghost before = self@;
        let mut list = match take(&mut self.object_properties, object_id.0) {
            Some(l) => l,
            None => Vec::new(),
        };
        if !holds_id(&list, property_id) {
            list.push(property_id);
        }
        let ghost now = list@;
        store(&mut self.object_properties, object_id.0, list);
        proof {
            assert(self@.attached =~= before.attached.insert(object_id.0, now));
        }
    }

    /// Sets the value of a property of an object, if the object has it and the
    /// value is valid; otherwise says why not and changes nothing.
    pub fn set_property(
        &mut self,
        object_id: DrmObjectId,
        property_id: DrmObjectId,
        value: DrmPropertyValue,
    ) -> (r: Result<(), &'static str>)
        requires
            old(self)@.masks_ok(),
        ensures
            match old(self)@.set_objection(object_id, property_id, value) {
                Some(why) => r matches Err(m) && m@ == why && final(self)@ == old(self)@,
                None => r is Ok && final(self)@ == old(self)@.set(property_id, value),
            },
            final(self)@.masks_ok(),
    {
        broadcast use vstd::std_specs::btree::group_btree_axioms;

        let ghost before = self@;
        let attached = match self.object_properties.get(&object_id.0) {
            Some(list) => holds_id(list, property_id),
            None => {
                return Err("Object has no properties");
            },
        };
        if !attached {
            return Err("Property not attached to object");
        }
        match take(&mut self.properties, property_id.0) {
            Some(property) => {
                let mut property = property;
                assert(before.properties[property_id.0] == property);
                let r = property.set_value(value);
                let ghost after = property;
                store(&mut self.properties, property_id.0, property);
                proof {
                    let end = self@.properties;
                    assert(end =~= before.properties.insert(property_id.0, after));
                    if r is Err {
                        assert(self@.properties =~= before.properties);
                    }
                    assert forall|id: u32, i: int|
                        #![trigger end[id].values@[i]]
                        end.contains_key(id) && end[id].property_type is Bitmask && 0 <= i
                            < end[id].values@.len() implies end[id].values@[i] < 64 by {
                        if id != property_id.0 {
                            assert(before.properties[id].values@[i] < 64);
                        } else {
                            assert(before.properties[id].values@[i] < 64);
                        }
                    }
                }
                r
            },
            None => {
                assert(self@.properties =~= before.properties);
                Err("Property not found")
            },
        }
    }

    /// The value of a property.
    pub fn get_property(&self, property_id: DrmObjectId) -> (r: Option<&DrmPropertyValue>)
        ensures
            match r {
                Some(v) => self@.value_of(property_id) == Some(*v),
                None => self@.value_of(property_id) is None,
            },
    {
        match self.get_property_def(property_id) {
            Some(p) => p.get_value(),
            None => None,
        }
    }

    /// The properties of an object, in the order they were attached.
    pub fn get_object_properties(&self, object_id: DrmObjectId) -> (r: Vec<DrmObjectId>)
        ensures
            r@ == (if self@.attached.contains_key(object_id.0) {
                self@.attached[object_id.0]
            } else {
                Seq::empty()
            }),
    {
        broadcast use vstd::std_specs::btree::group_btree_axioms;

        match self.object_properties.get(&object_id.0) {
            Some(list) => {
                let c = list.clone();
                assert(c@ =~= list@);
                c
            },
            None => Vec::new(),
        }
    }

    /// A property.
    pub fn get_property_def(&self, property_id: DrmObjectId) -> (r: Option<&DrmProperty>)
        ensures
            match r {
                Some(p) => bound(self@.properties, property_id.0) == Some(*p),
                None => bound(self@.properties, property_id.0) is None,
            },
    {
        broadcast use vstd::std_specs::btree::group_btree_axioms;

        self.properties.get(&property_id.0)
    }
}

/// What was set is what is read, and no other property changes.
pub proof fn lemma_get_after_set(
    t: PropertyTable,
    property_id: DrmObjectId,
    value: DrmPropertyValue,
    other: DrmObjectId,
)
    requires
        t.properties.contains_key(property_id.0),
    ensures
        t.set(property_id, value).value_of(property_id) == Some(value),
        other != property_id ==> t.set(property_id, value).value_of(other) == t.value_of(other),
        t.set(property_id, value).attached == t.attached,
{
}

/// The properties that every device has.
pub struct StandardProperties;

/// A list of named values 0, 1, 2, ...
fn named(names: &Vec<&'static str>) -> (list: Vec<DrmEnumValue>)
    ensures
        list@.len() == names@.len(),
        forall|i: int|
            0 <= i < list@.len() ==> (#[trigger] list@[i]).value == i && list@[i].name@
                == names@[i]@,
{
    let mut list: Vec<DrmEnumValue> = Vec::new();
    let mut i: usize = 0;
    while i < names.len()
        invariant
            i <= names.len(),
            list.len() == i,
            forall|k: int|
                0 <= k < i ==> (#[trigger] list@[k]).value == k && list@[k].name@ == names@[k]@,
        decreases names.len() - i,
    {
        list.push(DrmEnumValue { value: i as u64, name: names[i].to_owned() });
        i += 1;
    }
    list
}

/// An enumeration of the given names, with the one at `initial` set.
pub fn named_property(
    name: &'static str,
    names: &Vec<&'static str>,
    initial: usize,
    ids: &mut IdCounter,
) -> (p: DrmProperty)
    requires
        old(ids).next < u32::MAX,
        initial < names@.len(),
        initial <= u32::MAX,
    ensures
        p.id.0 == old(ids).next,
        final(ids).next == old(ids).next + 1,
        is_enum(p, name@, names@.map_values(|n: &'static str| n@), initial as u32),
{
    let p = DrmProperty::new_enum(name.to_owned(), named(names), initial, ids);
    assert(names_in_order(p.enum_values@, names@.map_values(|n: &'static str| n@)));
    p
}

impl StandardProperties {
    /// The properties of a crtc.
    pub fn create_crtc_properties(ids: &mut IdCounter) -> (r: Vec<DrmProperty>)
        requires
            old(ids).next + 2 <= u32::MAX,
        ensures
            r@.len() == 2,
            is_object(r@[0], "ACTIVE"@, 0xcccc_cccc, None),
            is_object(r@[1], "MODE_ID"@, 0xdede_dede, None),
            forall|i: int| 0 <= i < 2 ==> (#[trigger] r@[i]).id.0 == old(ids).next + i,
            final(ids).next == old(ids).next + 2,
    {
        let mut r: Vec<DrmProperty> = Vec::new();
        r.push(DrmProperty::new_object("ACTIVE".to_owned(), DrmObjectType::Crtc, None, ids));
        r.push(DrmProperty::new_object("MODE_ID".to_owned(), DrmObjectType::Mode, None, ids));
        r
    }

    /// The properties of a connector.
    pub fn create_connector_properties(ids: &mut IdCounter) -> (r: Vec<DrmProperty>)
        requires
            old(ids).next + 2 <= u32::MAX,
        ensures
            r@.len() == 2,
            is_enum(r@[0], "DPMS"@, seq!["On"@, "Standby"@, "Suspend"@, "Off"@], 0),
            is_object(r@[1], "CRTC_ID"@, 0xcccc_cccc, None),
            forall|i: int| 0 <= i < 2 ==> (#[trigger] r@[i]).id.0 == old(ids).next + i,
            final(ids).next == old(ids).next + 2,
    {
        let names = vec!["On", "Standby", "Suspend", "Off"];
        assert(names@.map_values(|n: &'static str| n@) =~= seq![
            "On"@,
            "Standby"@,
            "Suspend"@,
            "Off"@,
        ]);
        let mut r: Vec<DrmProperty> = Vec::new();
        r.push(named_property("DPMS", &names, 0, ids));
        r.push(DrmProperty::new_object("CRTC_ID".to_owned(), DrmObjectType::Crtc, None, ids));
        r
    }

    /// The properties of a plane.
    pub fn create_plane_properties(ids: &mut IdCounter) -> (r: Vec<DrmProperty>)
        requires
            old(ids).next + 11 <= u32::MAX,
        ensures
            r@.len() == 11,
            is_enum(r@[0], "type"@, seq!["Overlay"@, "Primary"@, "Cursor"@], 1),
            is_object(r@[1], "FB_ID"@, 0xdede_dede, None),
            is_object(r@[2], "CRTC_ID"@, 0xcccc_cccc, None),
            is_signed_range(r@[3], "CRTC_X"@, -2048i64 as i64, 2048, 0),
            is_signed_range(r@[4], "CRTC_Y"@, -2048i64 as i64, 2048, 0),
            is_range(r@[5], "CRTC_W"@, 0, 4096, 0),
            is_range(r@[6], "CRTC_H"@, 0, 4096, 0),
            is_range(r@[7], "SRC_X"@, 0, 0x1000_0000, 0),
            is_range(r@[8], "SRC_Y"@, 0, 0x1000_0000, 0),
            is_range(r@[9], "SRC_W"@, 0, 0x1000_0000, 0),
            is_range(r@[10], "SRC_H"@, 0, 0x1000_0000, 0),
            forall|i: int| 0 <= i < 11 ==> (#[trigger] r@[i]).id.0 == old(ids).next + i,
            final(ids).next == old(ids).next + 11,
    {
        let names = vec!["Overlay", "Primary", "Cursor"];
        assert(names@.map_values(|n: &'static str| n@) =~= seq!["Overlay"@, "Primary"@, "Cursor"@]);
        let mut r: Vec<DrmProperty> = Vec::new();
        r.push(named_property("type", &names, 1, ids));
        r.push(DrmProperty::new_object("FB_ID".to_owned(), DrmObjectType::Mode, None, ids));
        r.push(DrmProperty::new_object("CRTC_ID".to_owned(), DrmObjectType::Crtc, None, ids));
        r.push(DrmProperty::new_signed_range("CRTC_X".to_owned(), -2048, 2048, 0, ids));
        r.push(DrmProperty::new_signed_range("CRTC_Y".to_owned(), -2048, 2048, 0, ids));
        r.push(DrmProperty::new_range("CRTC_W".to_owned(), 0, 4096, 0, ids));
        r.push(DrmProperty::new_range("CRTC_H".to_owned(), 0, 4096, 0, ids));
        r.push(DrmProperty::new_range("SRC_X".to_owned(), 0, 0x1000_0000, 0, ids));
        r.push(DrmProperty::new_range("SRC_Y".to_owned(), 0, 0x1000_0000, 0, ids));
        r.push(DrmProperty::new_range("SRC_W".to_owned(), 0, 0x1000_0000, 0, ids));
        r.push(DrmProperty::new_range("SRC_H".to_owned(), 0, 0x1000_0000, 0, ids));
        r
    }
}

} // verus!
