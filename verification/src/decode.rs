//! The decoding layer: it turns the loosely typed textual fields of a raw
//! document into the strict typed model.
//!
//! The four field decoders keep their deliberately asymmetric policies:
//! multiplicity and mandatory are strict and fail on an unknown code, while
//! operations and resource type are lenient and degrade to a sentinel
//! variant on any unknown code.

use crate::model::Object;
use crate::model::ObjectV;
use crate::model::Operations;
use crate::model::Resource;
use crate::model::ResourceType;
use crate::model::ResourceV;
use crate::model::LwM2MSpec;
use crate::strutil::str_eq;
use crate::version::segment_value;
use crate::version::version_of;
use crate::version::Version;
use vstd::prelude::*;

verus! {

/// An error raised while a raw document is decoded into the typed model.
#[derive(Debug, Copy, Clone, PartialEq, Eq, Structural)]
pub enum DecodeError {
    /// A strict field (multiplicity or mandatory) held an unknown code.
    UnknownVariant,
    /// A version field did not parse as a dotted version.
    InvalidVersion,
    /// An id field did not parse as an unsigned 16-bit number.
    InvalidId,
}

/// The boolean denoted by a multiplicity code, if the code is known:
/// `Multiple` or `Single`, nothing else.
pub open spec fn multiplicity_of(s: Seq<char>) -> Option<bool> {
    if s == "Multiple"@ {
        Some(true)
    } else if s == "Single"@ {
        Some(false)
    } else {
        None
    }
}

/// The boolean denoted by a mandatory code, if the code is known:
/// `Mandatory` or `Optional`, nothing else.
pub open spec fn mandatory_of(s: Seq<char>) -> Option<bool> {
    if s == "Mandatory"@ {
        Some(true)
    } else if s == "Optional"@ {
        Some(false)
    } else {
        None
    }
}

/// The operations denoted by an operations code. Unknown codes (the empty
/// string among them) degrade to [`Operations::NoneAllowed`].
pub open spec fn operations_of(s: Seq<char>) -> Operations {
    if s == "R"@ {
        Operations::Read
    } else if s == "W"@ {
        Operations::Write
    } else if s == "RW"@ {
        Operations::ReadWrite
    } else if s == "E"@ {
        Operations::Execute
    } else {
        Operations::NoneAllowed
    }
}

/// The resource type denoted by a type code. Unknown codes degrade to
/// [`ResourceType::Other`].
pub open spec fn resource_type_of(s: Seq<char>) -> ResourceType {
    if s == "String"@ {
        ResourceType::String
    } else if s == "Integer"@ {
        ResourceType::Integer
    } else if s == "Float"@ {
        ResourceType::Float
    } else if s == "Boolean"@ {
        ResourceType::Boolean
    } else if s == "Opaque"@ {
        ResourceType::Opaque
    } else if s == "Time"@ {
        ResourceType::Time
    } else if s == "Objlnk"@ {
        ResourceType::ObjectLink
    } else if s == "Unsigned Integer"@ {
        ResourceType::UnsignedInteger
    } else if s == "Corelnk"@ {
        ResourceType::Corelink
    } else {
        ResourceType::Other
    }
}

/// Decode a multiplicity code. Strict: an unknown code is an error.
pub fn decode_multiple_instances(s: &str) -> (r: Result<bool, DecodeError>)
    ensures
        match multiplicity_of(s@) {
            Some(b) => r == Ok::<bool, DecodeError>(b),
            None => r == Err::<bool, DecodeError>(DecodeError::UnknownVariant),
        },
{
    if str_eq(s, "Multiple") {
        Ok(true)
    } else if str_eq(s, "Single") {
        Ok(false)
    } else {
        Err(DecodeError::UnknownVariant)
    }
}

/// Decode a mandatory code. Strict: an unknown code is an error.
pub fn decode_mandatory(s: &str) -> (r: Result<bool, DecodeError>)
    ensures
        match mandatory_of(s@) {
            Some(b) => r == Ok::<bool, DecodeError>(b),
            None => r == Err::<bool, DecodeError>(DecodeError::UnknownVariant),
        },
{
    if str_eq(s, "Mandatory") {
        Ok(true)
    } else if str_eq(s, "Optional") {
        Ok(false)
    } else {
        Err(DecodeError::UnknownVariant)
    }
}

/// Decode an operations code. Lenient: never fails.
pub fn decode_operations(s: &str) -> (r: Operations)
    ensures
        r == operations_of(s@),
{
    if str_eq(s, "R") {
        Operations::Read
    } else if str_eq(s, "W") {
        Operations::Write
    } else if str_eq(s, "RW") {
        Operations::ReadWrite
    } else if str_eq(s, "E") {
        Operations::Execute
    } else {
        Operations::NoneAllowed
    }
}

/// Decode a resource type code. Lenient: never fails.
pub fn decode_resource_type(s: &str) -> (r: ResourceType)
    ensures
        r == resource_type_of(s@),
{
    if str_eq(s, "String") {
        ResourceType::String
    } else if str_eq(s, "Integer") {
        ResourceType::Integer
    } else if str_eq(s, "Float") {
        ResourceType::Float
    } else if str_eq(s, "Boolean") {
        ResourceType::Boolean
    } else if str_eq(s, "Opaque") {
        ResourceType::Opaque
    } else if str_eq(s, "Time") {
        ResourceType::Time
    } else if str_eq(s, "Objlnk") {
        ResourceType::ObjectLink
    } else if str_eq(s, "Unsigned Integer") {
        ResourceType::UnsignedInteger
    } else if str_eq(s, "Corelnk") {
        ResourceType::Corelink
    } else {
        ResourceType::Other
    }
}

/// One resource of a raw document, all fields still text.
#[derive(Debug, Clone, PartialEq)]
pub struct RawResource {
    /// The text of the ID field.
    pub id: String,
    /// The text of the Name field.
    pub name: String,
    /// The text of the Operations field.
    pub operations: String,
    /// The text of the MultipleInstances field.
    pub multiple_instances: String,
    /// The text of the Mandatory field.
    pub mandatory: String,
    /// The text of the Type field.
    pub resource_type: String,
}

/// The mathematical value of a [`RawResource`].
pub ghost struct RawResourceV {
    /// The characters of the ID field.
    pub id: Seq<char>,
    /// The characters of the Name field.
    pub name: Seq<char>,
    /// The characters of the Operations field.
    pub operations: Seq<char>,
    /// The characters of the MultipleInstances field.
    pub multiple_instances: Seq<char>,
    /// The characters of the Mandatory field.
    pub mandatory: Seq<char>,
    /// The characters of the Type field.
    pub resource_type: Seq<char>,
}

impl View for RawResource {
    type V = RawResourceV;

    open spec fn view(&self) -> RawResourceV {
        RawResourceV {
            id: self.id@,
            name: self.name@,
            operations: self.operations@,
            multiple_instances: self.multiple_instances@,
            mandatory: self.mandatory@,
            resource_type: self.resource_type@,
        }
    }
}

impl DeepView for RawResource {
    type V = RawResourceV;

    open spec fn deep_view(&self) -> RawResourceV {
        self.view()
    }
}

/// The wrapper element that carries the resource list of a raw document:
/// its child items, or nothing where the wrapper was empty.
#[derive(Debug, Clone, PartialEq)]
pub struct RawResourceList {
    /// The child items of the wrapper, if any were present.
    pub items: Option<Vec<RawResource>>,
}

impl View for RawResourceList {
    type V = Option<Seq<RawResourceV>>;

    open spec fn view(&self) -> Option<Seq<RawResourceV>> {
        self.items.deep_view()
    }
}

impl DeepView for RawResourceList {
    type V = Option<Seq<RawResourceV>>;

    open spec fn deep_view(&self) -> Option<Seq<RawResourceV>> {
        self.view()
    }
}

/// One object definition of a raw document, all scalar fields still text.
#[derive(Debug, Clone, PartialEq)]
pub struct RawObject {
    /// The text of the Name field.
    pub name: String,
    /// The text of the ObjectID field.
    pub object_id: String,
    /// The text of the ObjectURN field.
    pub object_urn: String,
    /// The text of the ObjectVersion field.
    pub object_version: String,
    /// The text of the LWM2MVersion field.
    pub lwm2m_version: String,
    /// The text of the MultipleInstances field.
    pub multiple_instances: String,
    /// The text of the Mandatory field.
    pub mandatory: String,
    /// The resource list wrapper.
    pub resources: RawResourceList,
}

/// The mathematical value of a [`RawObject`].
pub ghost struct RawObjectV {
    /// The characters of the Name field.
    pub name: Seq<char>,
    /// The characters of the ObjectID field.
    pub object_id: Seq<char>,
    /// The characters of the ObjectURN field.
    pub object_urn: Seq<char>,
    /// The characters of the ObjectVersion field.
    pub object_version: Seq<char>,
    /// The characters of the LWM2MVersion field.
    pub lwm2m_version: Seq<char>,
    /// The characters of the MultipleInstances field.
    pub multiple_instances: Seq<char>,
    /// The characters of the Mandatory field.
    pub mandatory: Seq<char>,
    /// The raw resource values, or nothing where the wrapper was empty.
    pub resources: Option<Seq<RawResourceV>>,
}

impl View for RawObject {
    type V = RawObjectV;

    open spec fn view(&self) -> RawObjectV {
        RawObjectV {
            name: self.name@,
            object_id: self.object_id@,
            object_urn: self.object_urn@,
            object_version: self.object_version@,
            lwm2m_version: self.lwm2m_version@,
            multiple_instances: self.multiple_instances@,
            mandatory: self.mandatory@,
            resources: self.resources@,
        }
    }
}

impl DeepView for RawObject {
    type V = RawObjectV;

    open spec fn deep_view(&self) -> RawObjectV {
        self.view()
    }
}

/// One whole raw document: its ordered list of raw object definitions.
#[derive(Debug, Clone, PartialEq)]
pub struct RawSpec {
    /// The object definitions of the document, in declaration order.
    pub objects: Vec<RawObject>,
}

impl View for RawSpec {
    type V = Seq<RawObjectV>;

    open spec fn view(&self) -> Seq<RawObjectV> {
        self.objects.deep_view()
    }
}

impl DeepView for RawSpec {
    type V = Seq<RawObjectV>;

    open spec fn deep_view(&self) -> Seq<RawObjectV> {
        self.view()
    }
}

/// The flat item sequence of a resource list wrapper: an absent or empty
/// child sequence is a valid empty result, never an error.
pub open spec fn unwrapped_items(items: Option<Seq<RawResourceV>>) -> Seq<RawResourceV> {
    match items {
        Some(s) => s,
        None => Seq::empty(),
    }
}

/// The typed resource denoted by a raw resource, or the first error that
/// its fields raise, in field order.
pub open spec fn decode_resource_spec(r: RawResourceV) -> Result<ResourceV, DecodeError> {
    if segment_value(r.id) is None {
        Err(DecodeError::InvalidId)
    } else if multiplicity_of(r.multiple_instances) is None {
        Err(DecodeError::UnknownVariant)
    } else if mandatory_of(r.mandatory) is None {
        Err(DecodeError::UnknownVariant)
    } else {
        Ok(
            ResourceV {
                id: segment_value(r.id).unwrap(),
                name: r.name,
                operations: operations_of(r.operations),
                has_multiple_instances: multiplicity_of(r.multiple_instances).unwrap(),
                is_mandatory: mandatory_of(r.mandatory).unwrap(),
                resource_type: resource_type_of(r.resource_type),
            },
        )
    }
}

/// The typed resources denoted by a raw item sequence, in order, or the
/// first error among them.
pub open spec fn decode_items_spec(items: Seq<RawResourceV>) -> Result<Seq<ResourceV>, DecodeError>
    decreases items.len(),
{
    if items.len() == 0 {
        Ok(Seq::empty())
    } else {
        match decode_items_spec(items.drop_last()) {
            Ok(pre) => match decode_resource_spec(items.last()) {
                Ok(r) => Ok(pre.push(r)),
                Err(e) => Err(e),
            },
            Err(e) => Err(e),
        }
    }
}

/// The typed object denoted by a raw object, or the first error that its
/// fields raise, in field order.
pub open spec fn decode_object_spec(o: RawObjectV) -> Result<ObjectV, DecodeError> {
    if segment_value(o.object_id) is None {
        Err(DecodeError::InvalidId)
    } else if version_of(o.object_version) is None {
        Err(DecodeError::InvalidVersion)
    } else if version_of(o.lwm2m_version) is None {
        Err(DecodeError::InvalidVersion)
    } else if multiplicity_of(o.multiple_instances) is None {
        Err(DecodeError::UnknownVariant)
    } else if mandatory_of(o.mandatory) is None {
        Err(DecodeError::UnknownVariant)
    } else {
        match decode_items_spec(unwrapped_items(o.resources)) {
            Ok(resources) => Ok(
                ObjectV {
                    name: o.name,
                    object_id: segment_value(o.object_id).unwrap(),
                    object_urn: o.object_urn,
                    object_version: version_of(o.object_version).unwrap(),
                    lwm2m_version: version_of(o.lwm2m_version).unwrap(),
                    has_multiple_instances: multiplicity_of(o.multiple_instances).unwrap(),
                    is_mandatory: mandatory_of(o.mandatory).unwrap(),
                    resources,
                },
            ),
            Err(e) => Err(e),
        }
    }
}

/// The typed objects denoted by a whole raw document, in order, or the
/// first error among them.
pub open spec fn decode_document_spec(objects: Seq<RawObjectV>) -> Result<Seq<ObjectV>, DecodeError>
    decreases objects.len(),
{
    if objects.len() == 0 {
        Ok(Seq::empty())
    } else {
        match decode_document_spec(objects.drop_last()) {
            Ok(pre) => match decode_object_spec(objects.last()) {
                Ok(o) => Ok(pre.push(o)),
                Err(e) => Err(e),
            },
            Err(e) => Err(e),
        }
    }
}

/// If every item before `i` decodes and item `i` raises `e`, the whole item
/// sequence decodes to `e`: the first error wins.
proof fn lemma_decode_items_prefix_err(items: Seq<RawResourceV>, i: int)
    requires
        0 <= i < items.len(),
        decode_items_spec(items.take(i)) is Ok,
        decode_resource_spec(items[i]) is Err,
    ensures
        decode_items_spec(items) == Result::<Seq<ResourceV>, DecodeError>::Err(
            decode_resource_spec(items[i])->Err_0,
        ),
    decreases items.len(),
{
    if items.len() == i + 1 {
        assert(items.drop_last() =~= items.take(i));
        assert(items.last() == items[i]);
    } else {
        assert(items.drop_last().take(i) =~= items.take(i));
        assert(items.drop_last()[i] == items[i]);
        lemma_decode_items_prefix_err(items.drop_last(), i);
    }
}

/// If every object before `i` decodes and object `i` raises `e`, the whole
/// document decodes to `e`: the first error wins.
proof fn lemma_decode_document_prefix_err(objects: Seq<RawObjectV>, i: int)
    requires
        0 <= i < objects.len(),
        decode_document_spec(objects.take(i)) is Ok,
        decode_object_spec(objects[i]) is Err,
    ensures
        decode_document_spec(objects) == Result::<Seq<ObjectV>, DecodeError>::Err(
            decode_object_spec(objects[i])->Err_0,
        ),
    decreases objects.len(),
{
    if objects.len() == i + 1 {
        assert(objects.drop_last() =~= objects.take(i));
        assert(objects.last() == objects[i]);
    } else {
        assert(objects.drop_last().take(i) =~= objects.take(i));
        assert(objects.drop_last()[i] == objects[i]);
        lemma_decode_document_prefix_err(objects.drop_last(), i);
    }
}

/// Decode one raw resource into the typed model.
pub fn decode_resource(raw: &RawResource) -> (r: Result<Resource, DecodeError>)
    ensures
        match r {
            Ok(res) => decode_resource_spec(raw@) == Result::<ResourceV, DecodeError>::Ok(res@),
            Err(e) => decode_resource_spec(raw@) == Result::<ResourceV, DecodeError>::Err(e),
        },
{
    let id = match Version::parse_digit(Some(raw.id.as_str())) {
        Ok(v) => v,
        Err(_) => {
            return Err(DecodeError::InvalidId);
        },
    };
    let has_multiple_instances = match decode_multiple_instances(
        raw.multiple_instances.as_str(),
    ) {
        Ok(b) => b,
        Err(e) => {
            return Err(e);
        },
    };
    let is_mandatory = match decode_mandatory(raw.mandatory.as_str()) {
        Ok(b) => b,
        Err(e) => {
            return Err(e);
        },
    };
    let operations = decode_operations(raw.operations.as_str());
    let resource_type = decode_resource_type(raw.resource_type.as_str());
    Ok(
        Resource {
            id,
            name: raw.name.clone(),
            operations,
            has_multiple_instances,
            is_mandatory,
            resource_type,
        },
    )
}

/// Unwrap a resource list wrapper and decode its items in order. An absent
/// or empty item sequence is a valid empty result, never an error.
pub fn decode_resources_list(list: &RawResourceList) -> (r: Result<Vec<Resource>, DecodeError>)
    ensures
        match r {
            Ok(v) => decode_items_spec(unwrapped_items(list@)) == Result::<
                Seq<ResourceV>,
                DecodeError,
            >::Ok(v.deep_view()),
            Err(e) => decode_items_spec(unwrapped_items(list@)) == Result::<
                Seq<ResourceV>,
                DecodeError,
            >::Err(e),
        },
{
    let items = match &list.items {
        Some(v) => v,
        None => {
            let empty: Vec<Resource> = Vec::new();
            proof {
                assert(empty.deep_view() =~= Seq::<ResourceV>::empty());
            }
            return Ok(empty);
        },
    };
    let ghost items_v = items.deep_view();
    let mut out: Vec<Resource> = Vec::new();
    proof {
        assert(out.deep_view() =~= Seq::<ResourceV>::empty());
        assert(items_v.take(0) =~= Seq::<RawResourceV>::empty());
    }
    let mut i: usize = 0;
    while i < items.len()
        invariant
            i <= items.len(),
            items_v == items.deep_view(),
            unwrapped_items(list@) == items_v,
            decode_items_spec(items_v.take(i as int)) == Result::<
                Seq<ResourceV>,
                DecodeError,
            >::Ok(out.deep_view()),
        decreases items.len() - i,
    {
        let res = match decode_resource(&items[i]) {
            Ok(res) => res,
            Err(e) => {
                proof {
                    lemma_decode_items_prefix_err(items_v, i as int);
                }
                return Err(e);
            },
        };
        proof {
            assert(items_v.take(i + 1).drop_last() =~= items_v.take(i as int));
            assert(items_v.take(i + 1).last() == items_v[i as int]);
        }
        let ghost prev = out.deep_view();
        out.push(res);
        proof {
            assert(out.deep_view() =~= prev.push(res.deep_view()));
        }
        i = i + 1;
    }
    proof {
        assert(items_v.take(items_v.len() as int) =~= items_v);
    }
    Ok(out)
}

/// Decode one raw object definition into the typed model.
pub fn decode_object(raw: &RawObject) -> (r: Result<Object, DecodeError>)
    ensures
        match r {
            Ok(o) => decode_object_spec(raw@) == Result::<ObjectV, DecodeError>::Ok(o@),
            Err(e) => decode_object_spec(raw@) == Result::<ObjectV, DecodeError>::Err(e),
        },
{
    let object_id = match Version::parse_digit(Some(raw.object_id.as_str())) {
        Ok(v) => v,
        Err(_) => {
            return Err(DecodeError::InvalidId);
        },
    };
    let object_version = match Version::parse(raw.object_version.as_str()) {
        Ok(v) => v,
        Err(_) => {
            return Err(DecodeError::InvalidVersion);
        },
    };
    let lwm2m_version = match Version::parse(raw.lwm2m_version.as_str()) {
        Ok(v) => v,
        Err(_) => {
            return Err(DecodeError::InvalidVersion);
        },
    };
    let has_multiple_instances = match decode_multiple_instances(
        raw.multiple_instances.as_str(),
    ) {
        Ok(b) => b,
        Err(e) => {
            return Err(e);
        },
    };
    let is_mandatory = match decode_mandatory(raw.mandatory.as_str()) {
        Ok(b) => b,
        Err(e) => {
            return Err(e);
        },
    };
    let resources = match decode_resources_list(&raw.resources) {
        Ok(v) => v,
        Err(e) => {
            return Err(e);
        },
    };
    Ok(
        Object {
            name: raw.name.clone(),
            object_id,
            object_urn: raw.object_urn.clone(),
            object_version,
            lwm2m_version,
            has_multiple_instances,
            is_mandatory,
            resources,
        },
    )
}

/// Decode one whole raw document into the typed model: every object
/// definition must decode, in order, or the first error is raised.
pub fn decode_document(raw: &RawSpec) -> (r: Result<LwM2MSpec, DecodeError>)
    ensures
        match r {
            Ok(spec) => decode_document_spec(raw@) == Result::<Seq<ObjectV>, DecodeError>::Ok(
                spec@,
            ),
            Err(e) => decode_document_spec(raw@) == Result::<Seq<ObjectV>, DecodeError>::Err(e),
        },
{
    let ghost objects_v = raw.objects.deep_view();
    let mut out: Vec<Object> = Vec::new();
    proof {
        assert(out.deep_view() =~= Seq::<ObjectV>::empty());
        assert(objects_v.take(0) =~= Seq::<RawObjectV>::empty());
    }
    let mut i: usize = 0;
    while i < raw.objects.len()
        invariant
            i <= raw.objects.len(),
            objects_v == raw.objects.deep_view(),
            decode_document_spec(objects_v.take(i as int)) == Result::<
                Seq<ObjectV>,
                DecodeError,
            >::Ok(out.deep_view()),
        decreases raw.objects.len() - i,
    {
        let o = match decode_object(&raw.objects[i]) {
            Ok(o) => o,
            Err(e) => {
                proof {
                    lemma_decode_document_prefix_err(objects_v, i as int);
                }
                return Err(e);
            },
        };
        proof {
            assert(objects_v.take(i + 1).drop_last() =~= objects_v.take(i as int));
            assert(objects_v.take(i + 1).last() == objects_v[i as int]);
        }
        let ghost prev = out.deep_view();
        out.push(o);
        proof {
            assert(out.deep_view() =~= prev.push(o.deep_view()));
        }
        i = i + 1;
    }
    proof {
        assert(objects_v.take(objects_v.len() as int) =~= objects_v);
    }
    Ok(LwM2MSpec { objects: out })
}

} // verus!
