//! The parameters and the result of each of the nine operations.

use vstd::prelude::*;
use crate::field_map::FieldMap;
use crate::json::JsonValue;
use crate::provider::identifier::Identifier;
use crate::provider::record::Record;

verus! {

/// The order of a sort.
#[derive(Debug, Clone, Copy, PartialEq, Eq)]
pub enum SortOrder {
    Asc,
    Desc,
}

/// The field to sort by, and the order.
#[derive(Debug)]
pub struct SortPayload {
    pub field: String,
    pub order: SortOrder,
}

/// A page of a list: `page` counts from 1.
#[derive(Debug, Clone, Copy, PartialEq, Eq)]
pub struct PaginationPayload {
    pub page: usize,
    pub per_page: usize,
}

/// The values that fields must have, by field name.
pub type FilterPayload = FieldMap<String>;

/// Hints for a backend, by name. They are carried, never read.
pub type Meta = FieldMap<JsonValue>;

/// Whether a list goes on before and after the page returned.
#[derive(Debug, Clone, Copy, PartialEq, Eq)]
pub struct PageInfo {
    pub has_next_page: bool,
    pub has_previous_page: bool,
}

#[derive(Debug)]
pub struct GetListParams {
    pub pagination: Option<PaginationPayload>,
    pub sort: Option<SortPayload>,
    pub filter: Option<FilterPayload>,
    pub meta: Option<Meta>,
}

#[derive(Debug)]
pub struct GetListResult {
    pub data: Vec<Record>,
    pub total: Option<usize>,
    pub page_info: Option<PageInfo>,
    pub meta: Option<Meta>,
}

impl GetListResult {
    /// Whether the total, where there is one, is the number of records
    /// returned: what holds of a provider that has no other way to count.
    pub open spec fn counts_its_records(self) -> bool {
        self.total matches Some(n) ==> n == self.data@.len()
    }
}

#[derive(Debug)]
pub struct GetOneParams {
    pub id: Identifier,
    pub meta: Option<Meta>,
}

#[derive(Debug)]
pub struct GetOneResult {
    pub data: Record,
}

#[derive(Debug)]
pub struct GetManyParams {
    pub ids: Vec<Identifier>,
    pub meta: Option<Meta>,
}

#[derive(Debug)]
pub struct GetManyResult {
    pub data: Vec<Record>,
}

#[derive(Debug)]
pub struct GetManyReferenceParams {
    pub target: String,
    pub id: Identifier,
    pub pagination: PaginationPayload,
    pub sort: SortPayload,
    pub filter: FilterPayload,
    pub meta: Option<Meta>,
}

#[derive(Debug)]
pub struct GetManyReferenceResult {
    pub data: Vec<Record>,
    pub total: Option<usize>,
    pub page_info: Option<PageInfo>,
    pub meta: Option<Meta>,
}

#[derive(Debug)]
pub struct UpdateParams {
    pub id: Identifier,
    pub data: FieldMap<JsonValue>,
    pub previous_data: Record,
    pub meta: Option<Meta>,
}

#[derive(Debug)]
pub struct UpdateResult {
    pub data: Record,
}

#[derive(Debug)]
pub struct UpdateManyParams {
    pub ids: Vec<Identifier>,
    pub data: FieldMap<JsonValue>,
    pub meta: Option<Meta>,
}

#[derive(Debug)]
pub struct UpdateManyResult {
    pub data: Vec<Identifier>,
}

#[derive(Debug)]
pub struct CreateParams {
    pub data: FieldMap<JsonValue>,
    pub meta: Option<Meta>,
}

#[derive(Debug)]
pub struct CreateResult {
    pub data: Record,
}

#[derive(Debug)]
pub struct DeleteParams {
    pub id: Identifier,
    pub previous_data: Option<Record>,
    pub meta: Option<Meta>,
}

#[derive(Debug)]
pub struct DeleteResult {
    pub data: Record,
}

#[derive(Debug)]
pub struct DeleteManyParams {
    pub ids: Vec<Identifier>,
    pub meta: Option<Meta>,
}

#[derive(Debug)]
pub struct DeleteManyResult {
    pub data: Vec<Identifier>,
}

} // verus!
