use vstd::prelude::*;

use crate::types::Pagination;
use crate::value::{entry_views, Value};

verus! {

/// An addressable entity of the service: an opaque identifier, an
/// optional display name, the owning space, an optional type tag, and
/// an open-ended properties document.
#[derive(Debug, PartialEq)]
pub struct Object {
    pub id: String,
    pub name: Option<String>,
    pub space_id: Option<String>,
    /// Type tag of the object, as the service reports it.
    pub object: Option<String>,
    pub properties: Value,
}

/// One page of a listing: the items of this page and the cursor state.
#[derive(Debug, PartialEq)]
pub struct ListObjectsResponse {
    pub data: Vec<Object>,
    pub pagination: Pagination,
}

/// Request to create a new object: a required type key, an optional
/// name, and an optional properties document.
#[derive(Debug, PartialEq)]
pub struct CreateObjectRequest {
    pub type_key: String,
    pub name: Option<String>,
    pub properties: Option<Value>,
}

/// Response when creating an object.
#[derive(Debug, PartialEq)]
pub struct CreateObjectResponse {
    pub object: Object,
    pub properties: Option<Value>,
    pub markdown: Option<String>,
}

/// Response when deleting (archiving) an object; the returned object
/// reflects its new archived state.
#[derive(Debug, PartialEq)]
pub struct DeleteObjectResponse {
    pub object: Object,
}

/// Request to update an existing object. Every field is optional: a
/// field left out is left unchanged by the service (partial update,
/// not full replace).
#[derive(Debug, PartialEq)]
pub struct UpdateObjectRequest {
    pub name: Option<String>,
    pub markdown: Option<String>,
    pub properties: Option<Value>,
}

/// Response when updating an object.
#[derive(Debug, PartialEq)]
pub struct UpdateObjectResponse {
    pub object: Object,
    pub properties: Option<Value>,
    pub markdown: Option<String>,
}

/// The bindings of a create body: `type_key` always, `name` and
/// `properties` only when the request carries them.
pub open spec fn create_body_entries(req: CreateObjectRequest) -> Seq<(Seq<char>, Value)> {
    seq![("type_key"@, Value::Str(req.type_key))] + (match req.name {
        Some(n) => seq![("name"@, Value::Str(n))],
        None => Seq::empty(),
    }) + (match req.properties {
        Some(p) => seq![("properties"@, p)],
        None => Seq::empty(),
    })
}

/// The bindings of an update body: each of `name`, `markdown` and
/// `properties` present exactly when the request carries it, in that
/// order, so an omitted field is left unchanged by the service.
pub open spec fn update_body_entries(req: UpdateObjectRequest) -> Seq<(Seq<char>, Value)> {
    (match req.name {
        Some(n) => seq![("name"@, Value::Str(n))],
        None => Seq::empty(),
    }) + (match req.markdown {
        Some(m) => seq![("markdown"@, Value::Str(m))],
        None => Seq::empty(),
    }) + (match req.properties {
        Some(p) => seq![("properties"@, p)],
        None => Seq::empty(),
    })
}

impl CreateObjectRequest {
    /// Build the JSON body this request is sent as.
    pub fn into_body(self) -> (r: Value)
        ensures
            r matches Value::Obj(entries) && entry_views(entries@) == create_body_entries(
                self,
            ),
    {
        let ghost req = self;
        let CreateObjectRequest { type_key, name, properties } = self;
        let mut entries: Vec<(String, Value)> = Vec::new();
        entries.push((String::from_str("type_key"), Value::Str(type_key)));
        if let Some(n) = name {
            entries.push((String::from_str("name"), Value::Str(n)));
        }
        if let Some(p) = properties {
            entries.push((String::from_str("properties"), p));
        }
        proof {
            assert(entry_views(entries@) =~~= create_body_entries(req));
        }
        Value::Obj(entries)
    }
}

impl UpdateObjectRequest {
    /// Build the JSON body this request is sent as.
    pub fn into_body(self) -> (r: Value)
        ensures
            r matches Value::Obj(entries) && entry_views(entries@) == update_body_entries(
                self,
            ),
    {
        let ghost req = self;
        let UpdateObjectRequest { name, markdown, properties } = self;
        let mut entries: Vec<(String, Value)> = Vec::new();
        if let Some(n) = name {
            entries.push((String::from_str("name"), Value::Str(n)));
        }
        if let Some(m) = markdown {
            entries.push((String::from_str("markdown"), Value::Str(m)));
        }
        if let Some(p) = properties {
            entries.push((String::from_str("properties"), p));
        }
        proof {
            assert(entry_views(entries@) =~~= update_body_entries(req));
        }
        Value::Obj(entries)
    }
}

} // verus!
