//! The name of the PostgreSQL schema that one module instance owns.
use lenso_postgres_kit::{PlanError, SchemaPlan};
use vstd::prelude::*;

verus! {

/// A lower-case ASCII letter.
pub open spec fn lower_case(c: char) -> bool {
    'a' <= c <= 'z'
}

/// A name that PostgreSQL takes unquoted and that no other owner has reserved.
pub open spec fn is_owned_schema(name: Seq<char>) -> bool {
    &&& 0 < name.len() <= 63
    &&& lower_case(name[0])
    &&& forall|i: int|
        0 <= i < name.len() ==> lower_case(#[trigger] name[i]) || '0' <= name[i] <= '9' || name[i]
            == '_'
    &&& name != "public"@
    &&& name != "information_schema"@
    &&& !"pg_"@.is_prefix_of(name)
}

/// `SchemaPlan::new` without migrations. It looks at the name first, and refuses
/// exactly the names that a module cannot own; a name that passes is refused only
/// for the missing migrations.
#[verifier::external_body]
fn plan_accepts_name(schema: &str) -> (r: bool)
    ensures
        r == is_owned_schema(schema@),
{
    match SchemaPlan::new(schema, &[]) {
        Err(PlanError::InvalidSchemaName { .. }) => false,
        Err(PlanError::EmptyMigrations) => true,
        Err(PlanError::NonContiguousVersion { .. }) => true,
        Err(PlanError::InvalidMigrationName { .. }) => true,
        Err(PlanError::EmptyMigrationSql { .. }) => true,
        Err(PlanError::MigrationVersionTooLarge { .. }) => true,
        Ok(_) => true,
    }
}

/// Whether a module instance can own the schema of this name.
pub fn valid_schema(schema: &str) -> (r: bool)
    ensures
        r == is_owned_schema(schema@),
{
    plan_accepts_name(schema)
}

} // verus!
