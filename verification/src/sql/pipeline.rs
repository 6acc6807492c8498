//! The rewrites together: from SQL of PostgreSQL to SQL that can be planned.
use super::ast::{bigint_type, char_type, text_type};
use super::calls::{
    array_rule, array_upper_rule, available_updates_rule, brace_rule, collation_rule,
    pg_operator_rule, rewrite_array_subquery, rewrite_array_upper_to_array_length,
    rewrite_available_updates, rewrite_brace_array_literal, rewrite_pg_custom_operator,
    rewrite_pg_truetypid_composite_args, rewrite_time_zone_utc, rewrite_tuple_equality,
    strip_default_collate, truetype_rule, tuple_equality_rule, utc_rule,
};
use super::casts::{
    array_agg_rule, domain_rule, drop_oid_array_cast, drop_redundant_oid_and_regclass_casts,
    oid_array_rule, pg_text_rule, pg_types_rule, recast_rule, redundant_rule, regclass_rule,
    regoper_rule, replace_regclass, rewrite_array_agg_varchar_cast, rewrite_char_cast,
    rewrite_information_schema_casts, rewrite_name_cast, rewrite_regoper_cast,
    rewrite_regoperator_cast, rewrite_regproc_cast, rewrite_regprocedure_cast, rewrite_regtype_cast,
    rewrite_schema_qualified_custom_types, rewrite_schema_qualified_text,
    rewrite_text_backed_type_casts, rewrite_xid_cast, text_backed_rule,
};
use super::clauses::{
    replace_set_command_with_namespace, resolve_order_by_names_to_output_positions, set_rule,
    sort_rule,
};
use super::columns::{
    alias_unnamed_columns, apart_rule, disambiguate_duplicate_columns, fresh_text, spaced_text,
};
use super::cte::{lifted_text, try_rewrite_subquery_as_cte};
use super::group_by::{any_grouped_text, rewrite_group_by_for_any};
use super::lateral::{decorrelate_lateral_aggregate, lateral_text};
use super::parse::{outcome, SqlError, SqlFault};
use super::regproc::{
    oid_rule, regproc_rule, resolve_regproc_columns_to_oids_in_comparisons, rewrite_oid_cast,
};
use super::rewrite::{changed_text, nodes_text, rewritten_text, rewritten_text_explicit, Layout};
use super::srf::{rewrite_srf_to_unnest, srf_text};
use super::subqueries::{
    boolean_subquery_rule, exists_rule, rewrite_boolean_scalar_subquery_to_exists,
    rewrite_exists_to_count, rewrite_tuple_in_subquery_to_exists, tuple_in_rule,
};
use super::tables::{
    alias_subquery_tables, extension_source_rule, rewrite_available_extension_versions_source,
    rewrite_schema_qualified_udtfs, table_names_rule, udtfs_unqualified,
};
use super::tree::Syntax;
use crate::text::{find_pair, paired_with, pairs_of};
use vstd::prelude::*;

verus! {

/// One of the rewrites from text to text.
#[derive(Clone, Copy, Debug, PartialEq, Eq, Structural)]
pub enum Rewrite {
    SetCommand,
    TimeZoneUtc,
    Regclass,
    RegtypeCast,
    RegoperatorCast,
    RegprocedureCast,
    RegprocCast,
    RegoperCast,
    RegprocComparisons,
    OidCast,
    RedundantOidCasts,
    OidArrayCast,
    XidCast,
    CharCast,
    NameCast,
    TextBackedCasts,
    InformationSchemaCasts,
    QualifiedText,
    QualifiedTypes,
    ArrayAggCast,
    CustomOperator,
    DefaultCollation,
    BraceArrayLiteral,
    ArrayUpper,
    CompositeArguments,
    AvailableUpdates,
    ArraySubquery,
    TupleEquality,
    BooleanSubquery,
    ExistsToCount,
    TupleInSubquery,
    QualifiedTableFunctions,
    ExtensionVersions,
    SubqueryTables,
    SetReturningFunctions,
    LateralAggregate,
    OrderByNames,
    DuplicateColumns,
}

/// A text with the casts to the type `name` made casts to `target`.
pub open spec fn recast(name: Seq<char>, target: Syntax, sql: Seq<char>) -> Result<
    Seq<char>,
    SqlFault,
> {
    rewritten_text(recast_rule(name, target), Layout::Semicolons, sql)
}

impl Rewrite {
    /// What the rewrite makes of a text.
    pub open spec fn text(self, sql: Seq<char>) -> Result<Seq<char>, SqlFault> {
        match self {
            Rewrite::SetCommand => nodes_text(set_rule(), sql),
            Rewrite::TimeZoneUtc => changed_text(utc_rule(), false, sql),
            Rewrite::Regclass => rewritten_text_explicit(regclass_rule(), Layout::Spaces, sql),
            Rewrite::RegtypeCast => recast("regtype"@, text_type(), sql),
            Rewrite::RegoperatorCast => recast("regoperator"@, text_type(), sql),
            Rewrite::RegprocedureCast => recast("regprocedure"@, text_type(), sql),
            Rewrite::RegprocCast => recast("regproc"@, text_type(), sql),
            Rewrite::RegoperCast => rewritten_text(regoper_rule(), Layout::Semicolons, sql),
            Rewrite::RegprocComparisons => rewritten_text(regproc_rule(), Layout::Semicolons, sql),
            Rewrite::OidCast => rewritten_text(oid_rule(), Layout::Semicolons, sql),
            Rewrite::RedundantOidCasts => rewritten_text(redundant_rule(), Layout::Spaces, sql),
            Rewrite::OidArrayCast => rewritten_text(oid_array_rule(), Layout::Spaces, sql),
            Rewrite::XidCast => recast("xid"@, bigint_type(), sql),
            Rewrite::CharCast => recast("char"@, char_type(), sql),
            Rewrite::NameCast => recast("name"@, text_type(), sql),
            Rewrite::TextBackedCasts => rewritten_text(text_backed_rule(), Layout::Semicolons, sql),
            Rewrite::InformationSchemaCasts => rewritten_text(domain_rule(), Layout::Spaces, sql),
            Rewrite::QualifiedText => rewritten_text(pg_text_rule(), Layout::Spaces, sql),
            Rewrite::QualifiedTypes => rewritten_text(pg_types_rule(), Layout::Spaces, sql),
            Rewrite::ArrayAggCast => rewritten_text(array_agg_rule(), Layout::Spaces, sql),
            Rewrite::CustomOperator => rewritten_text_explicit(
                pg_operator_rule(),
                Layout::Spaces,
                sql,
            ),
            Rewrite::DefaultCollation => rewritten_text_explicit(
                collation_rule(),
                Layout::Semicolons,
                sql,
            ),
            Rewrite::BraceArrayLiteral => changed_text(brace_rule(), true, sql),
            Rewrite::ArrayUpper => rewritten_text(array_upper_rule(), Layout::Spaces, sql),
            Rewrite::CompositeArguments => rewritten_text(truetype_rule(), Layout::Spaces, sql),
            Rewrite::AvailableUpdates => changed_text(available_updates_rule(), false, sql),
            Rewrite::ArraySubquery => changed_text(array_rule(), false, sql),
            Rewrite::TupleEquality => rewritten_text(
                tuple_equality_rule(),
                Layout::Semicolons,
                sql,
            ),
            Rewrite::BooleanSubquery => rewritten_text(
                boolean_subquery_rule(),
                Layout::Spaces,
                sql,
            ),
            Rewrite::ExistsToCount => rewritten_text(exists_rule(), Layout::Spaces, sql),
            Rewrite::TupleInSubquery => rewritten_text(tuple_in_rule(), Layout::Spaces, sql),
            Rewrite::QualifiedTableFunctions => udtfs_unqualified(sql),
            Rewrite::ExtensionVersions => nodes_text(extension_source_rule(), sql),
            Rewrite::SubqueryTables => rewritten_text(table_names_rule(), Layout::Semicolons, sql),
            Rewrite::SetReturningFunctions => srf_text(sql),
            Rewrite::LateralAggregate => lateral_text(sql),
            Rewrite::OrderByNames => nodes_text(sort_rule(), sql),
            Rewrite::DuplicateColumns => spaced_text(apart_rule(), sql),
        }
    }

    /// Applies the rewrite to a text.
    pub fn apply(self, sql: &str) -> (r: Result<String, SqlError>)
        ensures
            outcome(r) == self.text(sql@),
    {
        match self {
            Rewrite::SetCommand => replace_set_command_with_namespace(sql),
            Rewrite::TimeZoneUtc => rewrite_time_zone_utc(sql),
            Rewrite::Regclass => replace_regclass(sql),
            Rewrite::RegtypeCast => rewrite_regtype_cast(sql),
            Rewrite::RegoperatorCast => rewrite_regoperator_cast(sql),
            Rewrite::RegprocedureCast => rewrite_regprocedure_cast(sql),
            Rewrite::RegprocCast => rewrite_regproc_cast(sql),
            Rewrite::RegoperCast => rewrite_regoper_cast(sql),
            Rewrite::RegprocComparisons => resolve_regproc_columns_to_oids_in_comparisons(sql),
            Rewrite::OidCast => rewrite_oid_cast(sql),
            Rewrite::RedundantOidCasts => drop_redundant_oid_and_regclass_casts(sql),
            Rewrite::OidArrayCast => drop_oid_array_cast(sql),
            Rewrite::XidCast => rewrite_xid_cast(sql),
            Rewrite::CharCast => rewrite_char_cast(sql),
            Rewrite::NameCast => rewrite_name_cast(sql),
            Rewrite::TextBackedCasts => rewrite_text_backed_type_casts(sql),
            Rewrite::InformationSchemaCasts => rewrite_information_schema_casts(sql),
            Rewrite::QualifiedText => rewrite_schema_qualified_text(sql),
            Rewrite::QualifiedTypes => rewrite_schema_qualified_custom_types(sql),
            Rewrite::ArrayAggCast => rewrite_array_agg_varchar_cast(sql),
            Rewrite::CustomOperator => rewrite_pg_custom_operator(sql),
            Rewrite::DefaultCollation => strip_default_collate(sql),
            Rewrite::BraceArrayLiteral => rewrite_brace_array_literal(sql),
            Rewrite::ArrayUpper => rewrite_array_upper_to_array_length(sql),
            Rewrite::CompositeArguments => rewrite_pg_truetypid_composite_args(sql),
            Rewrite::AvailableUpdates => rewrite_available_updates(sql),
            Rewrite::ArraySubquery => rewrite_array_subquery(sql),
            Rewrite::TupleEquality => rewrite_tuple_equality(sql),
            Rewrite::BooleanSubquery => rewrite_boolean_scalar_subquery_to_exists(sql),
            Rewrite::ExistsToCount => rewrite_exists_to_count(sql),
            Rewrite::TupleInSubquery => rewrite_tuple_in_subquery_to_exists(sql),
            Rewrite::QualifiedTableFunctions => rewrite_schema_qualified_udtfs(sql),
            Rewrite::ExtensionVersions => rewrite_available_extension_versions_source(sql),
            Rewrite::SubqueryTables => alias_subquery_tables(sql),
            Rewrite::SetReturningFunctions => rewrite_srf_to_unnest(sql),
            Rewrite::LateralAggregate => decorrelate_lateral_aggregate(sql),
            Rewrite::OrderByNames => resolve_order_by_names_to_output_positions(sql),
            Rewrite::DuplicateColumns => disambiguate_duplicate_columns(sql),
        }
    }
}

/// The rewrites, in the order in which they are applied. A boolean subquery becomes an `EXISTS`
/// before `EXISTS` becomes a count, and `IN` of a row constructor becomes one after that, so that
/// it stays an `EXISTS`.
pub open spec fn stage_order() -> Seq<Rewrite> {
    seq![
        Rewrite::SetCommand,
        Rewrite::TimeZoneUtc,
        Rewrite::Regclass,
        Rewrite::RegtypeCast,
        Rewrite::RegoperatorCast,
        Rewrite::RegprocedureCast,
        Rewrite::RegprocCast,
        Rewrite::RegoperCast,
        Rewrite::RegprocComparisons,
        Rewrite::OidCast,
        Rewrite::RedundantOidCasts,
        Rewrite::OidArrayCast,
        Rewrite::XidCast,
        Rewrite::CharCast,
        Rewrite::NameCast,
        Rewrite::TextBackedCasts,
        Rewrite::InformationSchemaCasts,
        Rewrite::QualifiedText,
        Rewrite::QualifiedTypes,
        Rewrite::ArrayAggCast,
        Rewrite::CustomOperator,
        Rewrite::DefaultCollation,
        Rewrite::BraceArrayLiteral,
        Rewrite::ArrayUpper,
        Rewrite::CompositeArguments,
        Rewrite::AvailableUpdates,
        Rewrite::ArraySubquery,
        Rewrite::TupleEquality,
        Rewrite::BooleanSubquery,
        Rewrite::ExistsToCount,
        Rewrite::TupleInSubquery,
        Rewrite::QualifiedTableFunctions,
        Rewrite::ExtensionVersions,
        Rewrite::SubqueryTables,
        Rewrite::SetReturningFunctions,
        Rewrite::LateralAggregate,
        Rewrite::OrderByNames,
        Rewrite::DuplicateColumns,
    ]
}

/// The rewrites, in the order in which they are applied.
pub fn stages() -> (r: Vec<Rewrite>)
    ensures
        r@ == stage_order(),
{
    let v: Vec<Rewrite> = vec![
        Rewrite::SetCommand,
        Rewrite::TimeZoneUtc,
        Rewrite::Regclass,
        Rewrite::RegtypeCast,
        Rewrite::RegoperatorCast,
        Rewrite::RegprocedureCast,
        Rewrite::RegprocCast,
        Rewrite::RegoperCast,
        Rewrite::RegprocComparisons,
        Rewrite::OidCast,
        Rewrite::RedundantOidCasts,
        Rewrite::OidArrayCast,
        Rewrite::XidCast,
        Rewrite::CharCast,
        Rewrite::NameCast,
        Rewrite::TextBackedCasts,
        Rewrite::InformationSchemaCasts,
        Rewrite::QualifiedText,
        Rewrite::QualifiedTypes,
        Rewrite::ArrayAggCast,
        Rewrite::CustomOperator,
        Rewrite::DefaultCollation,
        Rewrite::BraceArrayLiteral,
        Rewrite::ArrayUpper,
        Rewrite::CompositeArguments,
        Rewrite::AvailableUpdates,
        Rewrite::ArraySubquery,
        Rewrite::TupleEquality,
        Rewrite::BooleanSubquery,
        Rewrite::ExistsToCount,
        Rewrite::TupleInSubquery,
        Rewrite::QualifiedTableFunctions,
        Rewrite::ExtensionVersions,
        Rewrite::SubqueryTables,
        Rewrite::SetReturningFunctions,
        Rewrite::LateralAggregate,
        Rewrite::OrderByNames,
        Rewrite::DuplicateColumns,
    ];
    assert(v@ =~= stage_order());
    v
}

/// A text after the first `n` rewrites, up to the first that fails.
pub open spec fn staged(stages: Seq<Rewrite>, n: nat, sql: Seq<char>) -> Result<Seq<char>, SqlFault>
    decreases n,
{
    if n == 0 {
        Ok(sql)
    } else {
        match staged(stages, (n - 1) as nat, sql) {
            Ok(s) => stages[n - 1].text(s),
            Err(e) => Err(e),
        }
    }
}

proof fn failed_stages_stay(stages: Seq<Rewrite>, i: nat, n: nat, sql: Seq<char>)
    requires
        i <= n,
        staged(stages, i, sql) is Err,
    ensures
        staged(stages, n, sql) == staged(stages, i, sql),
    decreases n,
{
    if i < n {
        failed_stages_stay(stages, i, (n - 1) as nat, sql);
    }
}

/// Applies the rewrites one after the other.
pub fn run_stages(stages: &Vec<Rewrite>, sql: &str) -> (r: Result<String, SqlError>)
    ensures
        outcome(r) == staged(stages@, stages@.len(), sql@),
{
    let mut text = sql.to_owned();
    let mut i: usize = 0;
    while i < stages.len()
        invariant
            i <= stages@.len(),
            staged(stages@, i as nat, sql@) == Ok::<Seq<char>, SqlFault>(text@),
        decreases stages@.len() - i,
    {
        match stages[i].apply(text.as_str()) {
            Ok(s) => {
                text = s;
            },
            Err(e) => {
                proof {
                    failed_stages_stay(stages@, (i + 1) as nat, stages@.len(), sql@);
                }
                return Err(e);
            },
        }
        i = i + 1;
    }
    Ok(text)
}

/// A text that can be planned, and the fresh names of its columns with those that they stand
/// for.
#[derive(Debug)]
pub struct Plannable {
    pub text: String,
    pub names: Vec<(String, String)>,
}

/// The name that a client sees a column under.
pub open spec fn shown_name(names: Seq<(Seq<char>, Seq<char>)>, column: Seq<char>) -> Seq<char> {
    match paired_with(names, column) {
        Some(name) => name,
        None => column,
    }
}

impl Plannable {
    /// The name that a client sees a column of the result under.
    pub fn shown_name(&self, column: &str) -> (r: String)
        ensures
            r@ == shown_name(pairs_of(self.names@), column@),
    {
        match find_pair(&self.names, column) {
            Some(name) => name.clone(),
            None => column.to_owned(),
        }
    }
}

/// What becomes of a text: after the rewrites its columns get fresh names, its scalar subqueries
/// become common table expressions where they can, and the columns that `ANY` compares are grouped
/// by too.
pub open spec fn plannable_text(sql: Seq<char>) -> Result<
    (Seq<char>, Seq<(Seq<char>, Seq<char>)>),
    SqlFault,
> {
    match staged(stage_order(), stage_order().len(), sql) {
        Ok(s) => match fresh_text(s) {
            Ok((t, names)) => {
                let lifted = match lifted_text(t) {
                    Ok((u, _)) => u,
                    Err(_) => t,
                };
                Ok((any_grouped_text(lifted), names))
            },
            Err(e) => Err(e),
        },
        Err(e) => Err(e),
    }
}

/// The text that can be planned for a text of PostgreSQL.
pub fn plannable(sql: &str) -> (r: Result<Plannable, SqlError>)
    ensures
        match r {
            Ok(p) => plannable_text(sql@) == Ok::<
                (Seq<char>, Seq<(Seq<char>, Seq<char>)>),
                SqlFault,
            >((p.text@, pairs_of(p.names@))),
            Err(e) => plannable_text(sql@) == Err::<
                (Seq<char>, Seq<(Seq<char>, Seq<char>)>),
                SqlFault,
            >(e@),
        },
{
    let rewritten = match run_stages(&stages(), sql) {
        Ok(s) => s,
        Err(e) => return Err(e),
    };
    let (named, names) = match alias_unnamed_columns(rewritten.as_str()) {
        Ok(p) => p,
        Err(e) => return Err(e),
    };
    let lifted = match try_rewrite_subquery_as_cte(named.as_str()) {
        Some(s) => s,
        None => named,
    };
    Ok(Plannable { text: rewrite_group_by_for_any(lifted.as_str()), names })
}

/// What is made an `EXISTS` of a boolean subquery becomes a count, and what is made one of `IN`
/// with a row constructor does not: the rewrites stand in that order, each of them once.
pub proof fn subqueries_are_rewritten_in_order(i: int, j: int, k: int)
    requires
        0 <= i < stage_order().len(),
        0 <= j < stage_order().len(),
        0 <= k < stage_order().len(),
        stage_order()[i] == Rewrite::BooleanSubquery,
        stage_order()[j] == Rewrite::ExistsToCount,
        stage_order()[k] == Rewrite::TupleInSubquery,
    ensures
        i < j < k,
{
}

/// Every rewrite is applied.
pub proof fn every_rewrite_is_applied(x: Rewrite)
    ensures
        stage_order().contains(x),
{
    let s = stage_order();
    assert(s[0] == Rewrite::SetCommand);
    assert(s[1] == Rewrite::TimeZoneUtc);
    assert(s[2] == Rewrite::Regclass);
    assert(s[3] == Rewrite::RegtypeCast);
    assert(s[4] == Rewrite::RegoperatorCast);
    assert(s[5] == Rewrite::RegprocedureCast);
    assert(s[6] == Rewrite::RegprocCast);
    assert(s[7] == Rewrite::RegoperCast);
    assert(s[8] == Rewrite::RegprocComparisons);
    assert(s[9] == Rewrite::OidCast);
    assert(s[10] == Rewrite::RedundantOidCasts);
    assert(s[11] == Rewrite::OidArrayCast);
    assert(s[12] == Rewrite::XidCast);
    assert(s[13] == Rewrite::CharCast);
    assert(s[14] == Rewrite::NameCast);
    assert(s[15] == Rewrite::TextBackedCasts);
    assert(s[16] == Rewrite::InformationSchemaCasts);
    assert(s[17] == Rewrite::QualifiedText);
    assert(s[18] == Rewrite::QualifiedTypes);
    assert(s[19] == Rewrite::ArrayAggCast);
    assert(s[20] == Rewrite::CustomOperator);
    assert(s[21] == Rewrite::DefaultCollation);
    assert(s[22] == Rewrite::BraceArrayLiteral);
    assert(s[23] == Rewrite::ArrayUpper);
    assert(s[24] == Rewrite::CompositeArguments);
    assert(s[25] == Rewrite::AvailableUpdates);
    assert(s[26] == Rewrite::ArraySubquery);
    assert(s[27] == Rewrite::TupleEquality);
    assert(s[28] == Rewrite::BooleanSubquery);
    assert(s[29] == Rewrite::ExistsToCount);
    assert(s[30] == Rewrite::TupleInSubquery);
    assert(s[31] == Rewrite::QualifiedTableFunctions);
    assert(s[32] == Rewrite::ExtensionVersions);
    assert(s[33] == Rewrite::SubqueryTables);
    assert(s[34] == Rewrite::SetReturningFunctions);
    assert(s[35] == Rewrite::LateralAggregate);
    assert(s[36] == Rewrite::OrderByNames);
    assert(s[37] == Rewrite::DuplicateColumns);
}

} // verus!
