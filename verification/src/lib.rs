//! Axiom kernel: the typed relational-algebra AST.
//!
//! Identifiers, schemas, expressions and operator nodes are built only
//! through checked constructors. Each constructor states, over the
//! mathematical views of its inputs, exactly which inputs it admits
//! and what it builds from them; the operator constructors compute
//! their output schema once and state it.

pub mod canonical;
pub mod constraint;
pub mod expression;
pub mod identifier;
pub mod infer;
pub mod join;
pub mod laws;
pub mod limit;
pub mod limits;
pub mod op;
pub mod op_enums;
pub mod order;
pub mod path;
pub mod refine;
pub mod row;
pub mod schema;
pub mod source;
pub mod ty;
pub mod typing_laws;

pub use canonical::{CanonicalPredicate, CanonicalPredicateError};
pub use constraint::{
    AttributeConstraint, AttributeConstraintError, ConstraintSet, ConstraintSetError, RowConstraint,
};
pub use expression::{
    contains_aggregate, BoolExpression, Expression, InListValues, InListValuesError, OpaqueId,
    Predicate,
};
pub use identifier::{
    AttributeName, AttributeNameError, Pattern, PatternError, TableName, TableNameError,
};
pub use infer::{agg_ty, infer, infer_value, row_matches_schema, InferError, ValueTypeError};
pub use join::{EquiPair, EquiPairLeftKey, EquiPairs, EquiPairsError, JoinOn};
pub use limit::{
    BoundedCount, BoundedIndex, BoundedIndexError, LimitCount, LimitCountError, Offset, OffsetError,
};
pub use limits::{
    MAX_ARRAY_LEN, MAX_ATTRIBUTE_NAME_LEN, MAX_IN_LIST, MAX_LIMIT_COUNT, MAX_OFFSET,
    MAX_PATH_INDEX, MAX_PATH_STEPS, MAX_PATTERN_LEN, MAX_ROWS_IN_AST, MAX_SCHEMA_ATTRIBUTES,
    MAX_TABLE_NAME_LEN,
};
pub use op::{
    AttributeSet, AttributeSetError, GroupingSet, GroupingSetError, NamedAggKey, NamedAggSet,
    NamedAggSetError, Op, OpError, OpKind,
};
pub use op_enums::{Agg, BinOp, JoinKind, NamedAgg, UnOp};
pub use order::{Direction, NullOrder, OrderKey, OrderKeyAttrKey, OrderKeys, OrderKeysError};
pub use path::{
    AnyPath, Kind, Lens, LensPath, Path, PathError, PathStep, Traversal, TraversalPath,
};
pub use refine::{CollectionError, NumericError};
pub use row::{Row, RowError};
pub use schema::{
    Attribute, AttributeKey, Schema, SchemaCardinality, SchemaCardinalityError, SchemaError,
};
pub use source::{MemorySource, MemorySourceError, Rows, RowsError, Source};
pub use ty::{ArrayValues, Finite64, Type, Value};
