//! Answers that an embedding application gives for functions of a running server.
//!
//! A catalog alone cannot know the statistics of a running server. Each such function has a
//! slot that an application can put a resolver into. Without one the function answers NULL, or
//! no rows, so that the views that call it are there and empty.
use vstd::prelude::*;

verus! {

/// The place of an optional resolver.
pub struct ResolverSlot<F> {
    pub slot: Option<F>,
}

impl<F> View for ResolverSlot<F> {
    type V = Option<F>;

    open spec fn view(&self) -> Option<F> {
        self.slot
    }
}

impl<F> ResolverSlot<F> {
    /// A slot without a resolver.
    pub fn new() -> (r: Self)
        ensures
            r@ is None,
    {
        ResolverSlot { slot: None }
    }

    /// Installs `callback` in place of what was there.
    pub fn set(&mut self, callback: F)
        ensures
            final(self)@ == Some(callback),
    {
        self.slot = Some(callback);
    }

    /// Takes out what is there.
    pub fn clear(&mut self)
        ensures
            final(self)@ is None,
    {
        self.slot = None;
    }

    /// The resolver, if there is one.
    pub fn get(&self) -> (r: Option<&F>)
        ensures
            match r {
                Some(f) => self@ == Some(*f),
                None => self@ is None,
            },
    {
        match &self.slot {
            Some(f) => Some(f),
            None => None,
        }
    }
}

/// Installs the resolver of `pg_indexam_progress_phasename`, in place of what was there.
pub fn set_pg_indexam_progress_phasename_resolver<F>(slot: &mut ResolverSlot<F>, resolver: F)
    ensures
        final(slot)@ == Some(resolver),
{
    slot.set(resolver);
}

/// Takes out the resolver of `pg_indexam_progress_phasename`.
pub fn clear_pg_indexam_progress_phasename_resolver<F>(slot: &mut ResolverSlot<F>)
    ensures
        final(slot)@ is None,
{
    slot.clear();
}

/// Installs the resolver of `pg_get_statisticsobjdef_expressions`, in place of what was there.
pub fn set_pg_get_statisticsobjdef_expressions_resolver<F>(slot: &mut ResolverSlot<F>, resolver: F)
    ensures
        final(slot)@ == Some(resolver),
{
    slot.set(resolver);
}

/// Takes out the resolver of `pg_get_statisticsobjdef_expressions`.
pub fn clear_pg_get_statisticsobjdef_expressions_resolver<F>(slot: &mut ResolverSlot<F>)
    ensures
        final(slot)@ is None,
{
    slot.clear();
}

// --- answers ----------------------------------------------------------------------------------

/// Whether a resolver can be asked about every object.
pub open spec fn takes_any_oid<T, F: Fn(i64) -> Option<T>>(f: F) -> bool {
    forall|oid: i64| #[trigger] call_requires(f, (oid,))
}

/// Whether a resolver can be asked about every phase.
pub open spec fn takes_any_phase<F: Fn(i64, i64) -> Option<String>>(f: F) -> bool {
    forall|m: i64, p: i64| #[trigger] call_requires(f, (m, p))
}

/// Whether `out` is an answer for the object `oid`: what a resolver says of it, `default` where
/// there is none, and NULL for NULL.
pub open spec fn answers<T, F: Fn(i64) -> Option<T>>(
    oid: Option<i64>,
    resolver: Option<F>,
    default: Option<T>,
    out: Option<T>,
) -> bool {
    match oid {
        None => out is None,
        Some(oid) => match resolver {
            Some(f) => call_ensures(f, (oid,), out),
            None => out == default,
        },
    }
}

/// The answers of a function of one object, row by row.
pub fn resolve_by_oid<T: Copy, F: Fn(i64) -> Option<T>>(
    oids: &Vec<Option<i64>>,
    slot: &ResolverSlot<F>,
    default: Option<T>,
) -> (r: Vec<Option<T>>)
    requires
        slot@ is Some ==> takes_any_oid(slot@->0),
    ensures
        r@.len() == oids@.len(),
        forall|i: int|
            0 <= i < r@.len() ==> answers(oids@[i], slot@, default, #[trigger] r@[i]),
{
    let mut out: Vec<Option<T>> = Vec::new();
    let mut i: usize = 0;
    while i < oids.len()
        invariant
            i <= oids@.len(),
            out@.len() == i,
            slot@ is Some ==> takes_any_oid(slot@->0),
            forall|k: int| 0 <= k < i ==> answers(oids@[k], slot@, default, #[trigger] out@[k]),
        decreases oids@.len() - i,
    {
        let v: Option<T> = match oids[i] {
            None => None,
            Some(oid) => match slot.get() {
                Some(f) => {
                    assert(takes_any_oid(*f));
                    f(oid)
                },
                None => default,
            },
        };
        out.push(v);
        i = i + 1;
    }
    out
}

/// Whether `out` is an answer for the server: what a resolver says, or `default` where there is
/// none.
pub open spec fn answers_once<T, F: Fn() -> Option<T>>(
    resolver: Option<F>,
    default: Option<T>,
    out: Option<T>,
) -> bool {
    match resolver {
        Some(f) => call_ensures(f, (), out),
        None => out == default,
    }
}

/// The answer of a function of the server, the same for each of `rows` rows.
pub fn resolve_for_server<T: Copy, F: Fn() -> Option<T>>(
    rows: usize,
    slot: &ResolverSlot<F>,
    default: Option<T>,
) -> (r: Vec<Option<T>>)
    requires
        slot@ matches Some(f) ==> call_requires(f, ()),
    ensures
        r@.len() == rows,
        exists|v: Option<T>|
            #![trigger answers_once(slot@, default, v)]
            answers_once(slot@, default, v) && forall|i: int| 0 <= i < rows ==> r@[i] == v,
{
    let value: Option<T> = match slot.get() {
        Some(f) => f(),
        None => default,
    };
    assert(answers_once(slot@, default, value));
    let mut out: Vec<Option<T>> = Vec::new();
    let mut i: usize = 0;
    while i < rows
        invariant
            i <= rows,
            out@.len() == i,
            forall|k: int| 0 <= k < i ==> out@[k] == value,
        decreases rows - i,
    {
        out.push(value);
        i = i + 1;
    }
    out
}

/// Whether `out` is the name of a phase: what a resolver says of the access method and the
/// number of the phase, and NULL where one of them is NULL or there is no resolver.
pub open spec fn names_phase<F: Fn(i64, i64) -> Option<String>>(
    method: Option<i64>,
    phase: Option<i64>,
    resolver: Option<F>,
    out: Option<String>,
) -> bool {
    match (method, phase, resolver) {
        (Some(m), Some(p), Some(f)) => call_ensures(f, (m, p), out),
        _ => out is None,
    }
}

/// The answers of `pg_indexam_progress_phasename`, row by row, for as many rows as both arguments
/// have.
pub fn resolve_phase_names<F: Fn(i64, i64) -> Option<String>>(
    methods: &Vec<Option<i64>>,
    phases: &Vec<Option<i64>>,
    slot: &ResolverSlot<F>,
) -> (r: Vec<Option<String>>)
    requires
        slot@ is Some ==> takes_any_phase(slot@->0),
    ensures
        r@.len() == if methods@.len() <= phases@.len() {
            methods@.len()
        } else {
            phases@.len()
        },
        forall|i: int|
            0 <= i < r@.len() ==> names_phase(methods@[i], phases@[i], slot@, #[trigger] r@[i]),
{
    let mut out: Vec<Option<String>> = Vec::new();
    let mut i: usize = 0;
    while i < methods.len() && i < phases.len()
        invariant
            i <= methods@.len(),
            i <= phases@.len(),
            out@.len() == i,
            slot@ is Some ==> takes_any_phase(slot@->0),
            forall|k: int|
                0 <= k < i ==> names_phase(methods@[k], phases@[k], slot@, #[trigger] out@[k]),
        decreases methods@.len() - i,
    {
        let v: Option<String> = match (methods[i], phases[i], slot.get()) {
            (Some(m), Some(p), Some(f)) => {
                assert(takes_any_phase(*f));
                f(m, p)
            },
            _ => None,
        };
        out.push(v);
        i = i + 1;
    }
    out
}

/// Whether `out` holds the expressions of the statistics object `oid`: what a resolver says of
/// it, and NULL for NULL or without a resolver.
pub open spec fn lists_expressions<F: Fn(i64) -> Option<Vec<String>>>(
    oid: Option<i64>,
    resolver: Option<F>,
    out: Option<Vec<String>>,
) -> bool {
    match (oid, resolver) {
        (Some(oid), Some(f)) => call_ensures(f, (oid,), out),
        _ => out is None,
    }
}

/// The answers of `pg_get_statisticsobjdef_expressions`, row by row.
pub fn resolve_statistics_expressions<F: Fn(i64) -> Option<Vec<String>>>(
    oids: &Vec<Option<i64>>,
    slot: &ResolverSlot<F>,
) -> (r: Vec<Option<Vec<String>>>)
    requires
        slot@ is Some ==> takes_any_oid(slot@->0),
    ensures
        r@.len() == oids@.len(),
        forall|i: int| 0 <= i < r@.len() ==> lists_expressions(oids@[i], slot@, #[trigger] r@[i]),
{
    let mut out: Vec<Option<Vec<String>>> = Vec::new();
    let mut i: usize = 0;
    while i < oids.len()
        invariant
            i <= oids@.len(),
            out@.len() == i,
            slot@ is Some ==> takes_any_oid(slot@->0),
            forall|k: int|
                0 <= k < i ==> lists_expressions(oids@[k], slot@, #[trigger] out@[k]),
        decreases oids@.len() - i,
    {
        let v: Option<Vec<String>> = match (oids[i], slot.get()) {
            (Some(oid), Some(f)) => {
                assert(takes_any_oid(*f));
                f(oid)
            },
            _ => None,
        };
        out.push(v);
        i = i + 1;
    }
    out
}

/// Whether `rows` are the rows of a function that returns rows: what a resolver says, and none
/// where there is no resolver.
pub open spec fn lists_rows<R, F: Fn() -> Vec<R>>(resolver: Option<F>, rows: Vec<R>) -> bool {
    match resolver {
        Some(f) => call_ensures(f, (), rows),
        None => rows@.len() == 0,
    }
}

/// The rows of a function that returns rows.
pub fn resolve_rows<R, F: Fn() -> Vec<R>>(slot: &ResolverSlot<F>) -> (r: Vec<R>)
    requires
        slot@ matches Some(f) ==> call_requires(f, ()),
    ensures
        lists_rows(slot@, r),
{
    match slot.get() {
        Some(f) => f(),
        None => Vec::new(),
    }
}

// --- functions --------------------------------------------------------------------------------

/// The tests whether an object is reachable without its schema. They answer `true` where no
/// resolver is installed.
pub const VISIBILITY_BY_OID: [&'static str; 3] = [
    "pg_table_is_visible",
    "pg_function_is_visible",
    "pg_type_is_visible",
];

/// The statistics of the server that are 64-bit counts.
pub const COUNTS: [&'static str; 9] = [
    "pg_stat_get_bgwriter_buf_written_clean",
    "pg_stat_get_bgwriter_maxwritten_clean",
    "pg_stat_get_buf_alloc",
    "pg_stat_get_checkpointer_buffers_written",
    "pg_stat_get_checkpointer_num_requested",
    "pg_stat_get_checkpointer_num_timed",
    "pg_stat_get_checkpointer_restartpoints_performed",
    "pg_stat_get_checkpointer_restartpoints_requested",
    "pg_stat_get_checkpointer_restartpoints_timed",
];

/// The statistics of one object that are 64-bit counts.
pub const COUNTS_BY_OID: [&'static str; 52] = [
    "pg_stat_get_analyze_count",
    "pg_stat_get_autoanalyze_count",
    "pg_stat_get_autovacuum_count",
    "pg_stat_get_blocks_fetched",
    "pg_stat_get_blocks_hit",
    "pg_stat_get_db_blocks_fetched",
    "pg_stat_get_db_blocks_hit",
    "pg_stat_get_db_checksum_failures",
    "pg_stat_get_db_conflict_all",
    "pg_stat_get_db_conflict_bufferpin",
    "pg_stat_get_db_conflict_lock",
    "pg_stat_get_db_conflict_logicalslot",
    "pg_stat_get_db_conflict_snapshot",
    "pg_stat_get_db_conflict_startup_deadlock",
    "pg_stat_get_db_conflict_tablespace",
    "pg_stat_get_db_deadlocks",
    "pg_stat_get_db_sessions",
    "pg_stat_get_db_sessions_abandoned",
    "pg_stat_get_db_sessions_fatal",
    "pg_stat_get_db_sessions_killed",
    "pg_stat_get_db_temp_bytes",
    "pg_stat_get_db_temp_files",
    "pg_stat_get_db_tuples_deleted",
    "pg_stat_get_db_tuples_fetched",
    "pg_stat_get_db_tuples_inserted",
    "pg_stat_get_db_tuples_returned",
    "pg_stat_get_db_tuples_updated",
    "pg_stat_get_db_xact_commit",
    "pg_stat_get_db_xact_rollback",
    "pg_stat_get_dead_tuples",
    "pg_stat_get_function_calls",
    "pg_stat_get_ins_since_vacuum",
    "pg_stat_get_live_tuples",
    "pg_stat_get_mod_since_analyze",
    "pg_stat_get_numscans",
    "pg_stat_get_tuples_deleted",
    "pg_stat_get_tuples_fetched",
    "pg_stat_get_tuples_hot_updated",
    "pg_stat_get_tuples_inserted",
    "pg_stat_get_tuples_newpage_updated",
    "pg_stat_get_tuples_returned",
    "pg_stat_get_tuples_updated",
    "pg_stat_get_vacuum_count",
    "pg_stat_get_xact_function_calls",
    "pg_stat_get_xact_numscans",
    "pg_stat_get_xact_tuples_deleted",
    "pg_stat_get_xact_tuples_fetched",
    "pg_stat_get_xact_tuples_hot_updated",
    "pg_stat_get_xact_tuples_inserted",
    "pg_stat_get_xact_tuples_newpage_updated",
    "pg_stat_get_xact_tuples_returned",
    "pg_stat_get_xact_tuples_updated",
];

/// The statistics of one object that are 32-bit counts.
pub const SMALL_COUNTS_BY_OID: [&'static str; 1] = [
    "pg_stat_get_db_numbackends",
];

/// The statistics of the server that are durations, as floating-point numbers.
pub const DURATIONS: [&'static str; 2] = [
    "pg_stat_get_checkpointer_sync_time",
    "pg_stat_get_checkpointer_write_time",
];

/// The statistics of one object that are durations, as floating-point numbers.
pub const DURATIONS_BY_OID: [&'static str; 9] = [
    "pg_stat_get_db_active_time",
    "pg_stat_get_db_blk_read_time",
    "pg_stat_get_db_blk_write_time",
    "pg_stat_get_db_idle_in_transaction_time",
    "pg_stat_get_db_session_time",
    "pg_stat_get_function_self_time",
    "pg_stat_get_function_total_time",
    "pg_stat_get_xact_function_self_time",
    "pg_stat_get_xact_function_total_time",
];

/// The statistics of the server that are instants.
pub const INSTANTS: [&'static str; 2] = [
    "pg_stat_get_bgwriter_stat_reset_time",
    "pg_stat_get_checkpointer_stat_reset_time",
];

/// The statistics of one object that are instants.
pub const INSTANTS_BY_OID: [&'static str; 7] = [
    "pg_stat_get_db_checksum_last_failure",
    "pg_stat_get_db_stat_reset_time",
    "pg_stat_get_last_analyze_time",
    "pg_stat_get_last_autoanalyze_time",
    "pg_stat_get_last_autovacuum_time",
    "pg_stat_get_last_vacuum_time",
    "pg_stat_get_lastscan",
];

/// The columns of the functions that return rows: the function, the column, and its type.
pub const TABLE_FUNCTION_COLUMNS: [(&'static str, &'static str, &'static str); 248] = [
    ("pg_cursor", "name", "text"),
    ("pg_cursor", "statement", "text"),
    ("pg_cursor", "is_holdable", "bool"),
    ("pg_cursor", "is_binary", "bool"),
    ("pg_cursor", "is_scrollable", "bool"),
    ("pg_cursor", "creation_time", "timestamptz"),
    ("pg_get_backend_memory_contexts", "name", "text"),
    ("pg_get_backend_memory_contexts", "ident", "text"),
    ("pg_get_backend_memory_contexts", "parent", "text"),
    ("pg_get_backend_memory_contexts", "level", "int4"),
    ("pg_get_backend_memory_contexts", "total_bytes", "int8"),
    ("pg_get_backend_memory_contexts", "total_nblocks", "int8"),
    ("pg_get_backend_memory_contexts", "free_bytes", "int8"),
    ("pg_get_backend_memory_contexts", "free_chunks", "int8"),
    ("pg_get_backend_memory_contexts", "used_bytes", "int8"),
    ("pg_get_publication_tables", "pubid", "int8"),
    ("pg_get_publication_tables", "relid", "int8"),
    ("pg_get_publication_tables", "attrs", "text"),
    ("pg_get_publication_tables", "qual", "text"),
    ("pg_get_replication_slots", "slot_name", "text"),
    ("pg_get_replication_slots", "plugin", "text"),
    ("pg_get_replication_slots", "slot_type", "text"),
    ("pg_get_replication_slots", "datoid", "int8"),
    ("pg_get_replication_slots", "temporary", "bool"),
    ("pg_get_replication_slots", "active", "bool"),
    ("pg_get_replication_slots", "active_pid", "int4"),
    ("pg_get_replication_slots", "xmin", "int8"),
    ("pg_get_replication_slots", "catalog_xmin", "int8"),
    ("pg_get_replication_slots", "restart_lsn", "text"),
    ("pg_get_replication_slots", "confirmed_flush_lsn", "text"),
    ("pg_get_replication_slots", "wal_status", "text"),
    ("pg_get_replication_slots", "safe_wal_size", "int8"),
    ("pg_get_replication_slots", "two_phase", "bool"),
    ("pg_get_replication_slots", "inactive_since", "timestamptz"),
    ("pg_get_replication_slots", "conflicting", "bool"),
    ("pg_get_replication_slots", "invalidation_reason", "text"),
    ("pg_get_replication_slots", "failover", "bool"),
    ("pg_get_replication_slots", "synced", "bool"),
    ("pg_get_shmem_allocations", "name", "text"),
    ("pg_get_shmem_allocations", "off", "int8"),
    ("pg_get_shmem_allocations", "size", "int8"),
    ("pg_get_shmem_allocations", "allocated_size", "int8"),
    ("pg_get_wait_events", "type", "text"),
    ("pg_get_wait_events", "name", "text"),
    ("pg_get_wait_events", "description", "text"),
    ("pg_lock_status", "locktype", "text"),
    ("pg_lock_status", "database", "int8"),
    ("pg_lock_status", "relation", "int8"),
    ("pg_lock_status", "page", "int4"),
    ("pg_lock_status", "tuple", "int4"),
    ("pg_lock_status", "virtualxid", "text"),
    ("pg_lock_status", "transactionid", "int8"),
    ("pg_lock_status", "classid", "int8"),
    ("pg_lock_status", "objid", "int8"),
    ("pg_lock_status", "objsubid", "int4"),
    ("pg_lock_status", "virtualtransaction", "text"),
    ("pg_lock_status", "pid", "int4"),
    ("pg_lock_status", "mode", "text"),
    ("pg_lock_status", "granted", "bool"),
    ("pg_lock_status", "fastpath", "bool"),
    ("pg_lock_status", "waitstart", "timestamptz"),
    ("pg_mcv_list_items", "index", "int4"),
    ("pg_mcv_list_items", "values", "text"),
    ("pg_mcv_list_items", "nulls", "text"),
    ("pg_mcv_list_items", "frequency", "float8"),
    ("pg_mcv_list_items", "base_frequency", "float8"),
    ("pg_prepared_statement", "name", "text"),
    ("pg_prepared_statement", "statement", "text"),
    ("pg_prepared_statement", "prepare_time", "timestamptz"),
    ("pg_prepared_statement", "parameter_types", "text"),
    ("pg_prepared_statement", "result_types", "text"),
    ("pg_prepared_statement", "from_sql", "bool"),
    ("pg_prepared_statement", "generic_plans", "int8"),
    ("pg_prepared_statement", "custom_plans", "int8"),
    ("pg_prepared_xact", "transaction", "int8"),
    ("pg_prepared_xact", "gid", "text"),
    ("pg_prepared_xact", "prepared", "timestamptz"),
    ("pg_prepared_xact", "ownerid", "int8"),
    ("pg_prepared_xact", "dbid", "int8"),
    ("pg_show_all_file_settings", "sourcefile", "text"),
    ("pg_show_all_file_settings", "sourceline", "int4"),
    ("pg_show_all_file_settings", "seqno", "int4"),
    ("pg_show_all_file_settings", "name", "text"),
    ("pg_show_all_file_settings", "setting", "text"),
    ("pg_show_all_file_settings", "applied", "bool"),
    ("pg_show_all_file_settings", "error", "text"),
    ("pg_show_replication_origin_status", "local_id", "int8"),
    ("pg_show_replication_origin_status", "external_id", "text"),
    ("pg_show_replication_origin_status", "remote_lsn", "text"),
    ("pg_show_replication_origin_status", "local_lsn", "text"),
    ("pg_stat_get_activity", "datid", "int8"),
    ("pg_stat_get_activity", "pid", "int4"),
    ("pg_stat_get_activity", "usesysid", "int8"),
    ("pg_stat_get_activity", "application_name", "text"),
    ("pg_stat_get_activity", "state", "text"),
    ("pg_stat_get_activity", "query", "text"),
    ("pg_stat_get_activity", "wait_event_type", "text"),
    ("pg_stat_get_activity", "wait_event", "text"),
    ("pg_stat_get_activity", "xact_start", "timestamptz"),
    ("pg_stat_get_activity", "query_start", "timestamptz"),
    ("pg_stat_get_activity", "backend_start", "timestamptz"),
    ("pg_stat_get_activity", "state_change", "timestamptz"),
    ("pg_stat_get_activity", "client_addr", "text"),
    ("pg_stat_get_activity", "client_hostname", "text"),
    ("pg_stat_get_activity", "client_port", "int4"),
    ("pg_stat_get_activity", "backend_xid", "int8"),
    ("pg_stat_get_activity", "backend_xmin", "int8"),
    ("pg_stat_get_activity", "backend_type", "text"),
    ("pg_stat_get_activity", "ssl", "bool"),
    ("pg_stat_get_activity", "sslversion", "text"),
    ("pg_stat_get_activity", "sslcipher", "text"),
    ("pg_stat_get_activity", "sslbits", "int4"),
    ("pg_stat_get_activity", "ssl_client_dn", "text"),
    ("pg_stat_get_activity", "ssl_client_serial", "text"),
    ("pg_stat_get_activity", "ssl_issuer_dn", "text"),
    ("pg_stat_get_activity", "gss_auth", "bool"),
    ("pg_stat_get_activity", "gss_princ", "text"),
    ("pg_stat_get_activity", "gss_enc", "bool"),
    ("pg_stat_get_activity", "gss_delegation", "bool"),
    ("pg_stat_get_activity", "leader_pid", "int4"),
    ("pg_stat_get_activity", "query_id", "int8"),
    ("pg_stat_get_io", "backend_type", "text"),
    ("pg_stat_get_io", "object", "text"),
    ("pg_stat_get_io", "context", "text"),
    ("pg_stat_get_io", "reads", "int8"),
    ("pg_stat_get_io", "read_time", "float8"),
    ("pg_stat_get_io", "writes", "int8"),
    ("pg_stat_get_io", "write_time", "float8"),
    ("pg_stat_get_io", "writebacks", "int8"),
    ("pg_stat_get_io", "writeback_time", "float8"),
    ("pg_stat_get_io", "extends", "int8"),
    ("pg_stat_get_io", "extend_time", "float8"),
    ("pg_stat_get_io", "op_bytes", "int8"),
    ("pg_stat_get_io", "hits", "int8"),
    ("pg_stat_get_io", "evictions", "int8"),
    ("pg_stat_get_io", "reuses", "int8"),
    ("pg_stat_get_io", "fsyncs", "int8"),
    ("pg_stat_get_io", "fsync_time", "float8"),
    ("pg_stat_get_io", "stats_reset", "timestamptz"),
    ("pg_stat_get_progress_info", "pid", "int4"),
    ("pg_stat_get_progress_info", "datid", "int8"),
    ("pg_stat_get_progress_info", "relid", "int8"),
    ("pg_stat_get_progress_info", "param1", "int8"),
    ("pg_stat_get_progress_info", "param2", "int8"),
    ("pg_stat_get_progress_info", "param3", "int8"),
    ("pg_stat_get_progress_info", "param4", "int8"),
    ("pg_stat_get_progress_info", "param5", "int8"),
    ("pg_stat_get_progress_info", "param6", "int8"),
    ("pg_stat_get_progress_info", "param7", "int8"),
    ("pg_stat_get_progress_info", "param8", "int8"),
    ("pg_stat_get_progress_info", "param9", "int8"),
    ("pg_stat_get_progress_info", "param10", "int8"),
    ("pg_stat_get_progress_info", "param11", "int8"),
    ("pg_stat_get_progress_info", "param12", "int8"),
    ("pg_stat_get_progress_info", "param13", "int8"),
    ("pg_stat_get_progress_info", "param14", "int8"),
    ("pg_stat_get_progress_info", "param15", "int8"),
    ("pg_stat_get_progress_info", "param16", "int8"),
    ("pg_stat_get_progress_info", "param17", "int8"),
    ("pg_stat_get_progress_info", "param18", "int8"),
    ("pg_stat_get_progress_info", "param19", "int8"),
    ("pg_stat_get_progress_info", "param20", "int8"),
    ("pg_stat_get_recovery_prefetch", "stats_reset", "timestamptz"),
    ("pg_stat_get_recovery_prefetch", "prefetch", "int8"),
    ("pg_stat_get_recovery_prefetch", "hit", "int8"),
    ("pg_stat_get_recovery_prefetch", "skip_init", "int8"),
    ("pg_stat_get_recovery_prefetch", "skip_new", "int8"),
    ("pg_stat_get_recovery_prefetch", "skip_fpw", "int8"),
    ("pg_stat_get_recovery_prefetch", "skip_rep", "int8"),
    ("pg_stat_get_recovery_prefetch", "wal_distance", "int4"),
    ("pg_stat_get_recovery_prefetch", "block_distance", "int4"),
    ("pg_stat_get_recovery_prefetch", "io_depth", "int4"),
    ("pg_stat_get_slru", "name", "text"),
    ("pg_stat_get_slru", "blks_zeroed", "int8"),
    ("pg_stat_get_slru", "blks_hit", "int8"),
    ("pg_stat_get_slru", "blks_read", "int8"),
    ("pg_stat_get_slru", "blks_written", "int8"),
    ("pg_stat_get_slru", "blks_exists", "int8"),
    ("pg_stat_get_slru", "flushes", "int8"),
    ("pg_stat_get_slru", "truncates", "int8"),
    ("pg_stat_get_slru", "stats_reset", "timestamptz"),
    ("pg_stat_get_subscription", "subid", "int8"),
    ("pg_stat_get_subscription", "relid", "int8"),
    ("pg_stat_get_subscription", "pid", "int4"),
    ("pg_stat_get_subscription", "leader_pid", "int4"),
    ("pg_stat_get_subscription", "received_lsn", "text"),
    ("pg_stat_get_subscription", "last_msg_send_time", "timestamptz"),
    ("pg_stat_get_subscription", "last_msg_receipt_time", "timestamptz"),
    ("pg_stat_get_subscription", "latest_end_lsn", "text"),
    ("pg_stat_get_subscription", "latest_end_time", "timestamptz"),
    ("pg_stat_get_subscription", "worker_type", "text"),
    ("pg_stat_get_wal_senders", "pid", "int4"),
    ("pg_stat_get_wal_senders", "state", "text"),
    ("pg_stat_get_wal_senders", "sent_lsn", "text"),
    ("pg_stat_get_wal_senders", "write_lsn", "text"),
    ("pg_stat_get_wal_senders", "flush_lsn", "text"),
    ("pg_stat_get_wal_senders", "replay_lsn", "text"),
    ("pg_stat_get_wal_senders", "write_lag", "text"),
    ("pg_stat_get_wal_senders", "flush_lag", "text"),
    ("pg_stat_get_wal_senders", "replay_lag", "text"),
    ("pg_stat_get_wal_senders", "sync_priority", "int4"),
    ("pg_stat_get_wal_senders", "sync_state", "text"),
    ("pg_stat_get_wal_senders", "reply_time", "timestamptz"),
    ("pg_stat_get_archiver", "archived_count", "int8"),
    ("pg_stat_get_archiver", "last_archived_wal", "text"),
    ("pg_stat_get_archiver", "last_archived_time", "timestamptz"),
    ("pg_stat_get_archiver", "failed_count", "int8"),
    ("pg_stat_get_archiver", "last_failed_wal", "text"),
    ("pg_stat_get_archiver", "last_failed_time", "timestamptz"),
    ("pg_stat_get_archiver", "stats_reset", "timestamptz"),
    ("pg_stat_get_wal", "wal_records", "int8"),
    ("pg_stat_get_wal", "wal_fpi", "int8"),
    ("pg_stat_get_wal", "wal_bytes", "text"),
    ("pg_stat_get_wal", "wal_buffers_full", "int8"),
    ("pg_stat_get_wal", "wal_write", "int8"),
    ("pg_stat_get_wal", "wal_sync", "int8"),
    ("pg_stat_get_wal", "wal_write_time", "float8"),
    ("pg_stat_get_wal", "wal_sync_time", "float8"),
    ("pg_stat_get_wal", "stats_reset", "timestamptz"),
    ("pg_stat_get_wal_receiver", "pid", "int4"),
    ("pg_stat_get_wal_receiver", "status", "text"),
    ("pg_stat_get_wal_receiver", "receive_start_lsn", "text"),
    ("pg_stat_get_wal_receiver", "receive_start_tli", "int4"),
    ("pg_stat_get_wal_receiver", "written_lsn", "text"),
    ("pg_stat_get_wal_receiver", "flushed_lsn", "text"),
    ("pg_stat_get_wal_receiver", "received_tli", "int4"),
    ("pg_stat_get_wal_receiver", "last_msg_send_time", "timestamptz"),
    ("pg_stat_get_wal_receiver", "last_msg_receipt_time", "timestamptz"),
    ("pg_stat_get_wal_receiver", "latest_end_lsn", "text"),
    ("pg_stat_get_wal_receiver", "latest_end_time", "timestamptz"),
    ("pg_stat_get_wal_receiver", "slot_name", "text"),
    ("pg_stat_get_wal_receiver", "sender_host", "text"),
    ("pg_stat_get_wal_receiver", "sender_port", "int4"),
    ("pg_stat_get_wal_receiver", "conninfo", "text"),
    ("pg_stat_get_replication_slot", "slot_name", "text"),
    ("pg_stat_get_replication_slot", "spill_txns", "int8"),
    ("pg_stat_get_replication_slot", "spill_count", "int8"),
    ("pg_stat_get_replication_slot", "spill_bytes", "int8"),
    ("pg_stat_get_replication_slot", "stream_txns", "int8"),
    ("pg_stat_get_replication_slot", "stream_count", "int8"),
    ("pg_stat_get_replication_slot", "stream_bytes", "int8"),
    ("pg_stat_get_replication_slot", "total_txns", "int8"),
    ("pg_stat_get_replication_slot", "total_bytes", "int8"),
    ("pg_stat_get_replication_slot", "stats_reset", "timestamptz"),
    ("pg_stat_get_subscription_stats", "subid", "int8"),
    ("pg_stat_get_subscription_stats", "apply_error_count", "int8"),
    ("pg_stat_get_subscription_stats", "sync_error_count", "int8"),
    ("pg_stat_get_subscription_stats", "stats_reset", "timestamptz"),
];

// --- laws -------------------------------------------------------------------------------------

/// Without a resolver a function that has no other default is NULL of every object and for the
/// server, and one that returns rows has none.
pub proof fn unresolved_functions_are_empty<T, R, F, G, H>(
    oid: Option<i64>,
    of_object: Option<T>,
    of_server: Option<T>,
    rows: Vec<R>,
) where F: Fn(i64) -> Option<T>, G: Fn() -> Option<T>, H: Fn() -> Vec<R>
    requires
        answers(oid, None::<F>, None, of_object),
        answers_once(None::<G>, None, of_server),
        lists_rows(None::<H>, rows),
    ensures
        of_object is None,
        of_server is None,
        rows@ == Seq::<R>::empty(),
{
}

/// A function of an object is NULL of NULL, whatever its resolver says of other objects.
pub proof fn null_has_no_answer<T, F: Fn(i64) -> Option<T>>(
    resolver: Option<F>,
    default: Option<T>,
    out: Option<T>,
)
    requires
        answers(None, resolver, default, out),
    ensures
        out is None,
{
}

} // verus!
