//! The registry: the aggregated collection of decoded objects and its
//! identity/name/version query operations.
//!
//! All queries are pure linear scans over the collection. A lookup whose
//! key is absent returns an empty result, never an error. Duplicate
//! `(object_id, object_version)` pairs may coexist; queries return the
//! first match in load order.

use crate::model::Object;
use crate::model::ObjectV;
use crate::model::Resource;
use crate::model::ResourceType;
use crate::model::ResourceV;
use crate::strutil::str_eq;
use crate::version::version_le;
use crate::version::Version;
use vstd::prelude::*;

verus! {

/// The object has the given identity pair.
pub open spec fn obj_matches(o: ObjectV, object_id: u16, version: Version) -> bool {
    o.object_id == object_id && o.object_version == version
}

/// The first object with the given identity pair, in load order.
pub open spec fn find_object_spec(objs: Seq<ObjectV>, object_id: u16, version: Version) -> Option<
    ObjectV,
>
    decreases objs.len(),
{
    if objs.len() == 0 {
        None
    } else if obj_matches(objs[0], object_id, version) {
        Some(objs[0])
    } else {
        find_object_spec(objs.skip(1), object_id, version)
    }
}

/// The first resource with the given id, in declaration order.
pub open spec fn find_resource_spec(rs: Seq<ResourceV>, resource_id: u16) -> Option<ResourceV>
    decreases rs.len(),
{
    if rs.len() == 0 {
        None
    } else if rs[0].id == resource_id {
        Some(rs[0])
    } else {
        find_resource_spec(rs.skip(1), resource_id)
    }
}

/// The first resource with the given name, in declaration order.
pub open spec fn find_resource_by_name_spec(rs: Seq<ResourceV>, name: Seq<char>) -> Option<
    ResourceV,
>
    decreases rs.len(),
{
    if rs.len() == 0 {
        None
    } else if rs[0].name == name {
        Some(rs[0])
    } else {
        find_resource_by_name_spec(rs.skip(1), name)
    }
}

/// The resource with the given id of the first object with the given
/// identity pair, if both exist.
pub open spec fn find_resource_of(
    objs: Seq<ObjectV>,
    object_id: u16,
    version: Version,
    resource_id: u16,
) -> Option<ResourceV> {
    match find_object_spec(objs, object_id, version) {
        Some(o) => find_resource_spec(o.resources, resource_id),
        None => None,
    }
}

/// The resource with the given name of the first object with the given
/// identity pair, if both exist.
pub open spec fn find_resource_by_name_of(
    objs: Seq<ObjectV>,
    object_id: u16,
    version: Version,
    name: Seq<char>,
) -> Option<ResourceV> {
    match find_object_spec(objs, object_id, version) {
        Some(o) => find_resource_by_name_spec(o.resources, name),
        None => None,
    }
}

/// The identity pair returned for a name lookup that selects the newest
/// version: among the objects with the given name, the one with the
/// maximal version; among several with that same maximal version, the one
/// seen last in load order.
pub open spec fn newest_match_spec(objs: Seq<ObjectV>, name: Seq<char>) -> Option<(u16, Version)>
    decreases objs.len(),
{
    if objs.len() == 0 {
        None
    } else {
        let prev = newest_match_spec(objs.drop_last(), name);
        let o = objs.last();
        if o.name == name && (prev is None || version_le(prev.unwrap().1, o.object_version)) {
            Some((o.object_id, o.object_version))
        } else {
            prev
        }
    }
}

/// What an identity lookup returns: a result exists exactly where some
/// object has the given identity pair, and the result is the first such
/// object in load order. Duplicate pairs are tolerated; the later ones
/// are never returned.
pub proof fn lemma_find_object_is_first_match(objs: Seq<ObjectV>, object_id: u16, version: Version)
    ensures
        (find_object_spec(objs, object_id, version) is Some) <==> exists|i: int|
            0 <= i < objs.len() && obj_matches(objs[i], object_id, version),
        find_object_spec(objs, object_id, version) matches Some(o) ==> exists|i: int|
            {
                &&& 0 <= i < objs.len()
                &&& obj_matches(objs[i], object_id, version)
                &&& o == objs[i]
                &&& forall|j: int| 0 <= j < i ==> !obj_matches(objs[j], object_id, version)
            },
    decreases objs.len(),
{
    if objs.len() > 0 {
        let rest = objs.skip(1);
        lemma_find_object_is_first_match(rest, object_id, version);
        assert(forall|i: int| 0 <= i < rest.len() ==> rest[i] == objs[i + 1]);
        if obj_matches(objs[0], object_id, version) {
            assert(obj_matches(objs[0], object_id, version) && objs[0] == objs[0]);
        } else {
            if find_object_spec(objs, object_id, version) is Some {
                let o = find_object_spec(objs, object_id, version).unwrap();
                let w = choose|i: int|
                    {
                        &&& 0 <= i < rest.len()
                        &&& obj_matches(rest[i], object_id, version)
                        &&& o == rest[i]
                        &&& forall|j: int| 0 <= j < i ==> !obj_matches(rest[j], object_id, version)
                    };
                assert(obj_matches(objs[w + 1], object_id, version) && o == objs[w + 1]);
                assert(forall|j: int|
                    0 <= j < w + 1 ==> !obj_matches(objs[j], object_id, version)) by {
                    assert(forall|j: int|
                        1 <= j < w + 1 ==> objs[j] == rest[j - 1] && !obj_matches(
                            rest[j - 1],
                            object_id,
                            version,
                        ));
                }
            }
            if exists|i: int| 0 <= i < objs.len() && obj_matches(objs[i], object_id, version) {
                let w = choose|i: int|
                    0 <= i < objs.len() && obj_matches(objs[i], object_id, version);
                assert(w >= 1);
                assert(obj_matches(rest[w - 1], object_id, version));
            }
        }
    }
}

/// What the newest-version name lookup returns: a result exists exactly
/// where some object has the given name; the result is the identity pair
/// of such an object, and its version is maximal among all objects of
/// that name.
pub proof fn lemma_newest_match_is_max(objs: Seq<ObjectV>, name: Seq<char>)
    ensures
        (newest_match_spec(objs, name) is Some) <==> exists|i: int|
            0 <= i < objs.len() && objs[i].name == name,
        newest_match_spec(objs, name) matches Some(p) ==> exists|i: int|
            0 <= i < objs.len() && objs[i].name == name && objs[i].object_id == p.0
                && objs[i].object_version == p.1,
        newest_match_spec(objs, name) matches Some(p) ==> forall|i: int|
            0 <= i < objs.len() && objs[i].name == name ==> version_le(
                objs[i].object_version,
                p.1,
            ),
    decreases objs.len(),
{
    if objs.len() > 0 {
        let prefix = objs.drop_last();
        let o = objs.last();
        lemma_newest_match_is_max(prefix, name);
        assert(forall|i: int| 0 <= i < prefix.len() ==> objs[i] == prefix[i]);
        assert(o == objs[objs.len() - 1]);
        if newest_match_spec(objs, name) is Some {
            let p = newest_match_spec(objs, name).unwrap();
            if o.name == name && (newest_match_spec(prefix, name) is None || version_le(
                newest_match_spec(prefix, name).unwrap().1,
                o.object_version,
            )) {
                assert(objs[objs.len() - 1].name == name);
            } else {
                assert(newest_match_spec(prefix, name) == Some(p));
                let w = choose|i: int|
                    0 <= i < prefix.len() && prefix[i].name == name && prefix[i].object_id == p.0
                        && prefix[i].object_version == p.1;
                assert(objs[w].name == name && objs[w].object_id == p.0 && objs[w].object_version
                    == p.1);
            }
        }
        if exists|i: int| 0 <= i < objs.len() && objs[i].name == name {
            let w = choose|i: int| 0 <= i < objs.len() && objs[i].name == name;
            if w < objs.len() - 1 {
                assert(prefix[w].name == name);
            }
        }
    }
}

/// The registry owns the aggregated collection of objects decoded from all
/// discovered documents, and serves queries over it.
pub struct Registry {
    /// All the objects that were retrieved from the specification
    /// documents, in load order.
    pub objects: Vec<Object>,
}

impl View for Registry {
    type V = Seq<ObjectV>;

    open spec fn view(&self) -> Seq<ObjectV> {
        self.objects.deep_view()
    }
}

impl Registry {
    /// Wrap an aggregated collection of objects as a registry.
    pub fn new(objects: Vec<Object>) -> (r: Registry)
        ensures
            r@ == objects.deep_view(),
            r.objects@ == objects@,
    {
        Registry { objects }
    }

    /// Get the first object for a given object ID with version, if any.
    pub fn get_object_by_id(&self, object_id: u16, version: Version) -> (r: Option<&Object>)
        ensures
            match r {
                Some(o) => find_object_spec(self@, object_id, version) == Some(o@),
                None => find_object_spec(self@, object_id, version) is None,
            },
    {
        let ghost objs = self@;
        proof {
            assert(objs.skip(0) =~= objs);
        }
        let n = self.objects.len();
        let mut i: usize = 0;
        while i < n
            invariant
                i <= n,
                n == self.objects.len(),
                objs == self.objects.deep_view(),
                find_object_spec(objs, object_id, version) == find_object_spec(
                    objs.skip(i as int),
                    object_id,
                    version,
                ),
            decreases n - i,
        {
            let o = &self.objects[i];
            proof {
                assert(objs.skip(i as int)[0] == objs[i as int]);
            }
            if o.object_id == object_id && o.object_version == version {
                return Some(o);
            }
            proof {
                assert(objs.skip(i as int).skip(1) =~= objs.skip(i + 1));
            }
            i = i + 1;
        }
        proof {
            assert(objs.skip(n as int) =~= Seq::<ObjectV>::empty());
        }
        None
    }

    /// Check if an object with the given object ID and version exists.
    pub fn has_object_id(&self, object_id: u16, version: Version) -> (r: bool)
        ensures
            r == (find_object_spec(self@, object_id, version) is Some),
    {
        self.get_object_by_id(object_id, version).is_some()
    }

    /// Get the object name for a given object ID with version, if any.
    pub fn get_object_name(&self, object_id: u16, version: Version) -> (r: Option<String>)
        ensures
            match r {
                Some(n) => find_object_spec(self@, object_id, version) matches Some(o) && n@
                    == o.name,
                None => find_object_spec(self@, object_id, version) is None,
            },
    {
        match self.get_object_by_id(object_id, version) {
            Some(o) => Some(o.name.clone()),
            None => None,
        }
    }

    /// Get the object URN for a given object ID with version, if any.
    pub fn get_object_urn(&self, object_id: u16, version: Version) -> (r: Option<String>)
        ensures
            match r {
                Some(u) => find_object_spec(self@, object_id, version) matches Some(o) && u@
                    == o.object_urn,
                None => find_object_spec(self@, object_id, version) is None,
            },
    {
        match self.get_object_by_id(object_id, version) {
            Some(o) => Some(o.object_urn.clone()),
            None => None,
        }
    }

    /// Get a resource by ID for a given object ID with version, if both
    /// exist.
    pub fn get_resource_by_id(&self, object_id: u16, version: Version, resource_id: u16) -> (r:
        Option<&Resource>)
        ensures
            match r {
                Some(res) => find_resource_of(self@, object_id, version, resource_id) == Some(res@),
                None => find_resource_of(self@, object_id, version, resource_id) is None,
            },
    {
        let obj = match self.get_object_by_id(object_id, version) {
            Some(o) => o,
            None => {
                return None;
            },
        };
        let ghost rs = obj@.resources;
        proof {
            assert(rs.skip(0) =~= rs);
        }
        let n = obj.resources.len();
        let mut i: usize = 0;
        while i < n
            invariant
                i <= n,
                n == obj.resources.len(),
                rs == obj.resources.deep_view(),
                find_object_spec(self@, object_id, version) == Some(obj@),
                find_resource_spec(rs, resource_id) == find_resource_spec(
                    rs.skip(i as int),
                    resource_id,
                ),
            decreases n - i,
        {
            let res = &obj.resources[i];
            proof {
                assert(rs.skip(i as int)[0] == rs[i as int]);
            }
            if res.id == resource_id {
                return Some(res);
            }
            proof {
                assert(rs.skip(i as int).skip(1) =~= rs.skip(i + 1));
            }
            i = i + 1;
        }
        proof {
            assert(rs.skip(n as int) =~= Seq::<ResourceV>::empty());
        }
        None
    }

    /// Get a resource name by resource ID for a given object ID with
    /// version, if both exist.
    pub fn get_resource_name(&self, object_id: u16, version: Version, resource_id: u16) -> (r:
        Option<String>)
        ensures
            match r {
                Some(n) => find_resource_of(self@, object_id, version, resource_id) matches Some(
                    res,
                ) && n@ == res.name,
                None => find_resource_of(self@, object_id, version, resource_id) is None,
            },
    {
        match self.get_resource_by_id(object_id, version, resource_id) {
            Some(res) => Some(res.name.clone()),
            None => None,
        }
    }

    /// Get a resource type by resource ID for a given object ID with
    /// version, if both exist.
    pub fn get_resource_type(&self, object_id: u16, version: Version, resource_id: u16) -> (r:
        Option<ResourceType>)
        ensures
            r == match find_resource_of(self@, object_id, version, resource_id) {
                Some(res) => Some(res.resource_type),
                None => None::<ResourceType>,
            },
    {
        match self.get_resource_by_id(object_id, version, resource_id) {
            Some(res) => Some(res.resource_type),
            None => None,
        }
    }

    /// Check if a resource can have multiple instances, by resource ID for
    /// a given object ID with version.
    pub fn is_resource_multi_instance(&self, object_id: u16, version: Version, resource_id: u16)
        -> (r: Option<bool>)
        ensures
            r == match find_resource_of(self@, object_id, version, resource_id) {
                Some(res) => Some(res.has_multiple_instances),
                None => None::<bool>,
            },
    {
        match self.get_resource_by_id(object_id, version, resource_id) {
            Some(res) => Some(res.has_multiple_instances),
            None => None,
        }
    }

    /// Get a resource ID by resource name for a given object ID with
    /// version, if both exist.
    pub fn get_resource_id_by_name(&self, object_id: u16, version: Version, resource_name: &str)
        -> (r: Option<u16>)
        ensures
            r == match find_resource_by_name_of(self@, object_id, version, resource_name@) {
                Some(res) => Some(res.id),
                None => None::<u16>,
            },
    {
        let obj = match self.get_object_by_id(object_id, version) {
            Some(o) => o,
            None => {
                return None;
            },
        };
        let ghost rs = obj@.resources;
        proof {
            assert(rs.skip(0) =~= rs);
        }
        let n = obj.resources.len();
        let mut i: usize = 0;
        while i < n
            invariant
                i <= n,
                n == obj.resources.len(),
                rs == obj.resources.deep_view(),
                find_object_spec(self@, object_id, version) == Some(obj@),
                find_resource_by_name_spec(rs, resource_name@) == find_resource_by_name_spec(
                    rs.skip(i as int),
                    resource_name@,
                ),
            decreases n - i,
        {
            let res = &obj.resources[i];
            proof {
                assert(rs.skip(i as int)[0] == rs[i as int]);
            }
            if str_eq(res.name.as_str(), resource_name) {
                return Some(res.id);
            }
            proof {
                assert(rs.skip(i as int).skip(1) =~= rs.skip(i + 1));
            }
            i = i + 1;
        }
        proof {
            assert(rs.skip(n as int) =~= Seq::<ResourceV>::empty());
        }
        None
    }

    /// Get an object ID and its version for a given name: the entry with
    /// the highest version among the objects of that name, the one seen
    /// last in load order among ties.
    pub fn get_object_id_by_name_newest(&self, name: &str) -> (r: Option<(u16, Version)>)
        ensures
            r == newest_match_spec(self@, name@),
    {
        let ghost objs = self@;
        proof {
            assert(objs.take(0) =~= Seq::<ObjectV>::empty());
        }
        let mut best: Option<(u16, Version)> = None;
        let n = self.objects.len();
        let mut i: usize = 0;
        while i < n
            invariant
                i <= n,
                n == self.objects.len(),
                objs == self.objects.deep_view(),
                best == newest_match_spec(objs.take(i as int), name@),
            decreases n - i,
        {
            proof {
                assert(objs.take(i + 1).drop_last() =~= objs.take(i as int));
                assert(objs.take(i + 1).last() == objs[i as int]);
            }
            let o = &self.objects[i];
            if str_eq(o.name.as_str(), name) {
                let replace = match &best {
                    None => true,
                    Some(pair) => pair.1.is_at_most(&o.object_version),
                };
                if replace {
                    best = Some((o.object_id, o.object_version));
                }
            }
            i = i + 1;
        }
        proof {
            assert(objs.take(n as int) =~= objs);
        }
        best
    }

    /// Get all object IDs with their versions, one entry per object, in
    /// load order.
    pub fn get_object_ids(&self) -> (r: Vec<(u16, Version)>)
        ensures
            r@.len() == self@.len(),
            forall|i: int|
                0 <= i < self@.len() ==> r@[i] == (self@[i].object_id, self@[i].object_version),
    {
        let ghost objs = self@;
        let mut out: Vec<(u16, Version)> = Vec::new();
        let n = self.objects.len();
        let mut i: usize = 0;
        while i < n
            invariant
                i <= n,
                n == self.objects.len(),
                objs == self.objects.deep_view(),
                out@.len() == i,
                forall|j: int|
                    0 <= j < i ==> out@[j] == (objs[j].object_id, objs[j].object_version),
            decreases n - i,
        {
            let o = &self.objects[i];
            out.push((o.object_id, o.object_version));
            i = i + 1;
        }
        out
    }
}

} // verus!
