//! The strict typed record model produced by decoding: operations codes,
//! resource types, resources, objects and whole documents.

use crate::version::Version;
use vstd::prelude::*;

verus! {

/// Operations that are allowed on a resource.
#[derive(Debug, Copy, Clone, PartialEq, Eq, Structural)]
pub enum Operations {
    /// Resource can be only read.
    Read,
    /// Resource can be only written.
    Write,
    /// Resource can be read and written.
    ReadWrite,
    /// Resource can be only executed.
    Execute,
    /// No operations allowed on resource.
    NoneAllowed,
}

/// Indicates the type of resource.
#[derive(Debug, Copy, Clone, PartialEq, Eq, Structural)]
pub enum ResourceType {
    /// The resource is a string (utf-8).
    String,
    /// The resource is a signed integer number.
    Integer,
    /// The resource is a floating point number.
    Float,
    /// The resource is a boolean value.
    Boolean,
    /// The resource is of opaque type.
    Opaque,
    /// The resource represents a time.
    Time,
    /// The resource links to an object.
    ObjectLink,
    /// The resource is an unsigned integer number.
    UnsignedInteger,
    /// The resource is of CoreLink format.
    Corelink,
    /// Unspecified resource type.
    Other,
}

/// A resource within an LwM2M object.
#[derive(Debug, PartialEq)]
pub struct Resource {
    /// The resource ID.
    pub id: u16,
    /// The name of the resource.
    pub name: String,
    /// The allowed operations for the resource.
    pub operations: Operations,
    /// Indicates if the resource has multiple instances.
    pub has_multiple_instances: bool,
    /// Indicates if the resource is mandatory.
    pub is_mandatory: bool,
    /// The type of the resource.
    pub resource_type: ResourceType,
}

/// The mathematical value of a [`Resource`].
pub ghost struct ResourceV {
    /// The resource ID.
    pub id: u16,
    /// The characters of the resource name.
    pub name: Seq<char>,
    /// The allowed operations.
    pub operations: Operations,
    /// Whether the resource has multiple instances.
    pub has_multiple_instances: bool,
    /// Whether the resource is mandatory.
    pub is_mandatory: bool,
    /// The type of the resource.
    pub resource_type: ResourceType,
}

impl View for Resource {
    type V = ResourceV;

    open spec fn view(&self) -> ResourceV {
        ResourceV {
            id: self.id,
            name: self.name@,
            operations: self.operations,
            has_multiple_instances: self.has_multiple_instances,
            is_mandatory: self.is_mandatory,
            resource_type: self.resource_type,
        }
    }
}

impl DeepView for Resource {
    type V = ResourceV;

    open spec fn deep_view(&self) -> ResourceV {
        self.view()
    }
}

impl Resource {
    /// Initialize a new resource.
    pub fn new(
        id: u16,
        name: String,
        operations: Operations,
        has_multiple_instances: bool,
        is_mandatory: bool,
        resource_type: ResourceType,
    ) -> (r: Resource)
        ensures
            r@ == (ResourceV {
                name: name@,
                id,
                operations,
                has_multiple_instances,
                is_mandatory,
                resource_type,
            }),
    {
        Resource { id, name, operations, has_multiple_instances, is_mandatory, resource_type }
    }
}

/// Represents a LwM2M object as defined in a specification document.
#[derive(Debug, PartialEq)]
pub struct Object {
    /// The name of the object.
    pub name: String,
    /// The object ID.
    pub object_id: u16,
    /// The URN of the object.
    pub object_urn: String,
    /// The object version.
    pub object_version: Version,
    /// The LwM2M version where the object was introduced.
    pub lwm2m_version: Version,
    /// Indicates if the object can have multiple instances.
    pub has_multiple_instances: bool,
    /// Indicates if the object is mandatory.
    pub is_mandatory: bool,
    /// The list of resources of the object, in declaration order.
    pub resources: Vec<Resource>,
}

/// The mathematical value of an [`Object`].
pub ghost struct ObjectV {
    /// The characters of the object name.
    pub name: Seq<char>,
    /// The object ID.
    pub object_id: u16,
    /// The characters of the object URN.
    pub object_urn: Seq<char>,
    /// The object version.
    pub object_version: Version,
    /// The protocol version.
    pub lwm2m_version: Version,
    /// Whether the object can have multiple instances.
    pub has_multiple_instances: bool,
    /// Whether the object is mandatory.
    pub is_mandatory: bool,
    /// The resource values, in declaration order.
    pub resources: Seq<ResourceV>,
}

impl View for Object {
    type V = ObjectV;

    open spec fn view(&self) -> ObjectV {
        ObjectV {
            name: self.name@,
            object_id: self.object_id,
            object_urn: self.object_urn@,
            object_version: self.object_version,
            lwm2m_version: self.lwm2m_version,
            has_multiple_instances: self.has_multiple_instances,
            is_mandatory: self.is_mandatory,
            resources: self.resources.deep_view(),
        }
    }
}

impl DeepView for Object {
    type V = ObjectV;

    open spec fn deep_view(&self) -> ObjectV {
        self.view()
    }
}

/// Represents one whole LwM2M object specification document: its ordered
/// list of object definitions. Usually a document defines only one object,
/// but the format permits more.
#[derive(Debug, PartialEq)]
pub struct LwM2MSpec {
    /// List of all specified objects in the document.
    pub objects: Vec<Object>,
}

impl View for LwM2MSpec {
    type V = Seq<ObjectV>;

    open spec fn view(&self) -> Seq<ObjectV> {
        self.objects.deep_view()
    }
}

} // verus!
