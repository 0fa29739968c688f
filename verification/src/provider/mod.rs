//! The operation contract: the data model that every provider shares.

pub mod identifier;
pub mod params;
pub mod record;
pub mod resource;

pub use identifier::Identifier;
pub use params::{
    CreateParams, CreateResult, DeleteManyParams, DeleteManyResult, DeleteParams, DeleteResult,
    FilterPayload, GetListParams, GetListResult, GetManyParams, GetManyReferenceParams,
    GetManyReferenceResult, GetManyResult, GetOneParams, GetOneResult, Meta, PageInfo,
    PaginationPayload, SortOrder, SortPayload, UpdateManyParams, UpdateManyResult, UpdateParams,
    UpdateResult,
};
pub use record::{RaRecord, Record};
pub use resource::Resource;
