//! Turning a row filter into a filter over the partitions of one spec.
//!
//! [`build_partition_filter`] starts the work. Each state but the last waits for one answer from
//! the expression library; [`PartitionFilterBuild::resume`] takes the answer and gives the next
//! state.

use vstd::prelude::*;
use vstd::string::*;

use crate::error::{Error, ErrorKind, ErrorView, RuleError, RuleErrorView};
use crate::model::{PartitionSpec, TableMetadata, TableTypes};
use crate::text::decimal_text;

verus! {

/// A state of the work on a partition filter. Every state holds the row filter, so that the last
/// one gives it back.
pub enum PartitionFilterBuild<'a, T: TableTypes> {
    /// The fields of the partition type of `spec` under `schema` are to be found.
    PartitionType {
        spec: &'a PartitionSpec<T>,
        schema: &'a T::Schema,
        bound_filter: T::BoundPredicate,
    },
    /// A schema with id `schema_id` and the fields `fields` is to be built.
    BuildSchema {
        spec: &'a PartitionSpec<T>,
        schema_id: i32,
        fields: T::PartitionFields,
        bound_filter: T::BoundPredicate,
    },
    /// `bound_filter` is to be projected onto the partitions of `spec`, keeping every partition
    /// that may hold a matching row.
    Project {
        spec: &'a PartitionSpec<T>,
        partition_schema: T::Schema,
        bound_filter: T::BoundPredicate,
    },
    /// Negations are to be pushed down to the leaves of `projected`.
    RewriteNot {
        partition_schema: T::Schema,
        projected: T::Predicate,
        bound_filter: T::BoundPredicate,
    },
    /// `predicate` is to be bound to `partition_schema`.
    Bind {
        partition_schema: T::Schema,
        predicate: T::Predicate,
        case_sensitive: bool,
        bound_filter: T::BoundPredicate,
    },
    /// The partition filter, or why there is none.
    Finished { result: Result<T::BoundPredicate, Error<T>>, bound_filter: T::BoundPredicate },
}

/// What a `PartitionFilterBuild` holds.
pub enum PartitionFilterBuildView<T: TableTypes> {
    PartitionType { spec: PartitionSpec<T>, schema: T::Schema, bound_filter: T::BoundPredicate },
    BuildSchema {
        spec: PartitionSpec<T>,
        schema_id: i32,
        fields: T::PartitionFields,
        bound_filter: T::BoundPredicate,
    },
    Project {
        spec: PartitionSpec<T>,
        partition_schema: T::Schema,
        bound_filter: T::BoundPredicate,
    },
    RewriteNot {
        partition_schema: T::Schema,
        projected: T::Predicate,
        bound_filter: T::BoundPredicate,
    },
    Bind {
        partition_schema: T::Schema,
        predicate: T::Predicate,
        case_sensitive: bool,
        bound_filter: T::BoundPredicate,
    },
    Finished { result: Result<T::BoundPredicate, ErrorView<T>>, bound_filter: T::BoundPredicate },
}

/// An answer to a state of the work on a partition filter.
pub enum PartitionFilterReply<T: TableTypes> {
    /// The fields of the partition type.
    Fields(Result<T::PartitionFields, T::Failure>),
    /// The schema of the partitions.
    Schema(Result<T::Schema, T::Failure>),
    /// The projected filter.
    Projected(Result<T::Predicate, T::Failure>),
    /// The filter with its negations pushed down.
    Rewritten(T::Predicate),
    /// The bound filter.
    Bound(Result<T::BoundPredicate, T::Failure>),
}

impl<'a, T: TableTypes> View for PartitionFilterBuild<'a, T> {
    type V = PartitionFilterBuildView<T>;

    open spec fn view(&self) -> PartitionFilterBuildView<T> {
        match *self {
            PartitionFilterBuild::PartitionType { spec, schema, bound_filter } => {
                PartitionFilterBuildView::PartitionType {
                    spec: *spec,
                    schema: *schema,
                    bound_filter,
                }
            },
            PartitionFilterBuild::BuildSchema { spec, schema_id, fields, bound_filter } => {
                PartitionFilterBuildView::BuildSchema {
                    spec: *spec,
                    schema_id,
                    fields,
                    bound_filter,
                }
            },
            PartitionFilterBuild::Project { spec, partition_schema, bound_filter } => {
                PartitionFilterBuildView::Project { spec: *spec, partition_schema, bound_filter }
            },
            PartitionFilterBuild::RewriteNot { partition_schema, projected, bound_filter } => {
                PartitionFilterBuildView::RewriteNot { partition_schema, projected, bound_filter }
            },
            PartitionFilterBuild::Bind {
                partition_schema,
                predicate,
                case_sensitive,
                bound_filter,
            } => PartitionFilterBuildView::Bind {
                partition_schema,
                predicate,
                case_sensitive,
                bound_filter,
            },
            PartitionFilterBuild::Finished { result: Ok(filter), bound_filter } => {
                PartitionFilterBuildView::Finished { result: Ok(filter), bound_filter }
            },
            PartitionFilterBuild::Finished { result: Err(error), bound_filter } => {
                PartitionFilterBuildView::Finished { result: Err(error@), bound_filter }
            },
        }
    }
}

/// The error for a partition spec that the table does not have.
pub open spec fn missing_spec_error<T: TableTypes>(spec_id: i32) -> ErrorView<T> {
    ErrorView::Rule(
        RuleErrorView {
            kind: ErrorKind::Unexpected,
            message: "Could not find partition spec for id "@ + crate::text::decimal(
                spec_id as int,
            ),
            retryable: false,
        },
    )
}

impl<T: TableTypes> PartitionFilterBuildView<T> {
    /// The first state.
    pub open spec fn start(
        metadata: TableMetadata<T>,
        spec_id: i32,
        schema: T::Schema,
        bound_filter: T::BoundPredicate,
    ) -> Self {
        if metadata.partition_specs@.contains_key(spec_id) {
            PartitionFilterBuildView::PartitionType {
                spec: metadata.partition_specs@[spec_id],
                schema,
                bound_filter,
            }
        } else {
            PartitionFilterBuildView::Finished {
                result: Err(missing_spec_error(spec_id)),
                bound_filter,
            }
        }
    }

    /// The last state after a failure.
    pub open spec fn failed(failure: T::Failure, bound_filter: T::BoundPredicate) -> Self {
        PartitionFilterBuildView::Finished {
            result: Err(ErrorView::Outside(failure)),
            bound_filter,
        }
    }

    /// The state after an answer. A failure ends the work; an answer that the state does not wait
    /// for changes nothing.
    pub open spec fn step(self, reply: PartitionFilterReply<T>) -> Self {
        match (self, reply) {
            (
                PartitionFilterBuildView::PartitionType { spec, bound_filter, .. },
                PartitionFilterReply::Fields(reply),
            ) => match reply {
                Ok(fields) => PartitionFilterBuildView::BuildSchema {
                    spec,
                    schema_id: spec.spec_id,
                    fields,
                    bound_filter,
                },
                Err(failure) => Self::failed(failure, bound_filter),
            },
            (
                PartitionFilterBuildView::BuildSchema { spec, bound_filter, .. },
                PartitionFilterReply::Schema(reply),
            ) => match reply {
                Ok(partition_schema) => PartitionFilterBuildView::Project {
                    spec,
                    partition_schema,
                    bound_filter,
                },
                Err(failure) => Self::failed(failure, bound_filter),
            },
            (
                PartitionFilterBuildView::Project { partition_schema, bound_filter, .. },
                PartitionFilterReply::Projected(reply),
            ) => match reply {
                Ok(projected) => PartitionFilterBuildView::RewriteNot {
                    partition_schema,
                    projected,
                    bound_filter,
                },
                Err(failure) => Self::failed(failure, bound_filter),
            },
            (
                PartitionFilterBuildView::RewriteNot { partition_schema, bound_filter, .. },
                PartitionFilterReply::Rewritten(predicate),
            ) => PartitionFilterBuildView::Bind {
                partition_schema,
                predicate,
                case_sensitive: true,
                bound_filter,
            },
            (
                PartitionFilterBuildView::Bind { bound_filter, .. },
                PartitionFilterReply::Bound(reply),
            ) => match reply {
                Ok(filter) => PartitionFilterBuildView::Finished {
                    result: Ok(filter),
                    bound_filter,
                },
                Err(failure) => Self::failed(failure, bound_filter),
            },
            _ => self,
        }
    }
}

fn missing_spec<T: TableTypes>(spec_id: i32) -> (error: Error<T>)
    ensures
        error@ == missing_spec_error::<T>(spec_id),
{
    let mut message = String::from_str("Could not find partition spec for id ");
    let id = decimal_text(spec_id);
    message.append(id.as_str());
    Error::Rule(RuleError::new(ErrorKind::Unexpected, message))
}

/// Starts the work on the filter that `bound_filter` puts on the partitions of the spec
/// `spec_id`, where `bound_filter` is bound to `schema`. The filter is bound to a schema of the
/// partition fields that has the id of the spec.
pub fn build_partition_filter<'a, T: TableTypes>(
    metadata: &'a TableMetadata<T>,
    spec_id: i32,
    schema: &'a T::Schema,
    bound_filter: T::BoundPredicate,
) -> (state: PartitionFilterBuild<'a, T>)
    ensures
        state@ == PartitionFilterBuildView::start(*metadata, spec_id, *schema, bound_filter),
{
    match metadata.partition_spec_by_id(spec_id) {
        Some(spec) => PartitionFilterBuild::PartitionType { spec, schema, bound_filter },
        None => PartitionFilterBuild::Finished {
            result: Err(missing_spec(spec_id)),
            bound_filter,
        },
    }
}

impl<'a, T: TableTypes> PartitionFilterBuild<'a, T> {
    fn failed(failure: T::Failure, bound_filter: T::BoundPredicate) -> (state: Self)
        ensures
            state@ == PartitionFilterBuildView::<T>::failed(failure, bound_filter),
    {
        PartitionFilterBuild::Finished { result: Err(Error::Outside(failure)), bound_filter }
    }

    /// Goes on with an answer.
    pub fn resume(self, reply: PartitionFilterReply<T>) -> (state: Self)
        ensures
            state@ == self@.step(reply),
    {
        match (self, reply) {
            (
                PartitionFilterBuild::PartitionType { spec, bound_filter, .. },
                PartitionFilterReply::Fields(reply),
            ) => match reply {
                Ok(fields) => PartitionFilterBuild::BuildSchema {
                    spec,
                    schema_id: spec.spec_id,
                    fields,
                    bound_filter,
                },
                Err(failure) => Self::failed(failure, bound_filter),
            },
            (
                PartitionFilterBuild::BuildSchema { spec, bound_filter, .. },
                PartitionFilterReply::Schema(reply),
            ) => match reply {
                Ok(partition_schema) => PartitionFilterBuild::Project {
                    spec,
                    partition_schema,
                    bound_filter,
                },
                Err(failure) => Self::failed(failure, bound_filter),
            },
            (
                PartitionFilterBuild::Project { partition_schema, bound_filter, .. },
                PartitionFilterReply::Projected(reply),
            ) => match reply {
                Ok(projected) => PartitionFilterBuild::RewriteNot {
                    partition_schema,
                    projected,
                    bound_filter,
                },
                Err(failure) => Self::failed(failure, bound_filter),
            },
            (
                PartitionFilterBuild::RewriteNot { partition_schema, bound_filter, .. },
                PartitionFilterReply::Rewritten(predicate),
            ) => PartitionFilterBuild::Bind {
                partition_schema,
                predicate,
                case_sensitive: true,
                bound_filter,
            },
            (
                PartitionFilterBuild::Bind { bound_filter, .. },
                PartitionFilterReply::Bound(reply),
            ) => match reply {
                Ok(filter) => PartitionFilterBuild::Finished { result: Ok(filter), bound_filter },
                Err(failure) => Self::failed(failure, bound_filter),
            },
            (state, _) => state,
        }
    }
}

} // verus!
