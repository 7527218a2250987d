//! The content library and settings store: records, errors, and the
//! queries sent to the database. The database itself runs outside the
//! library.
use vstd::prelude::*;
use crate::text::{chars_of, decimal, push_decimal, replace_all, replace_str};

verus! {

/// What went wrong with the database.
pub enum DatabaseError {
    ConnectionError(String),
    QueryError(String),
    SerializationError(String),
    NotFound(String),
    PathError(String),
}

/// The message of a database error.
pub open spec fn database_error_message(e: DatabaseError) -> Seq<char> {
    match e {
        DatabaseError::ConnectionError(s) => "Failed to connect to database: "@ + s@,
        DatabaseError::QueryError(s) => "Database query error: "@ + s@,
        DatabaseError::SerializationError(s) => "Serialization error: "@ + s@,
        DatabaseError::NotFound(s) => "Record not found: "@ + s@,
        DatabaseError::PathError(s) => "Database path error: "@ + s@,
    }
}

impl DatabaseError {
    /// The message describing the error.
    pub fn message(&self) -> (m: String)
        ensures
            m@ == database_error_message(*self),
    {
        let (prefix, detail) = match self {
            DatabaseError::ConnectionError(s) => ("Failed to connect to database: ", s),
            DatabaseError::QueryError(s) => ("Database query error: ", s),
            DatabaseError::SerializationError(s) => ("Serialization error: ", s),
            DatabaseError::NotFound(s) => ("Record not found: ", s),
            DatabaseError::PathError(s) => ("Database path error: ", s),
        };
        let mut m = String::from_str(prefix);
        m.append(detail.as_str());
        m
    }
}

/// The message given while the database is not yet open.
pub const NOT_INITIALIZED: &'static str = "Database not initialized";

/// Sets up the storage module; the database itself opens later.
pub fn init_storage() {
}

/// The format a content block has unless another is given.
pub fn default_format() -> (f: String)
    ensures
        f@ == "typst"@,
{
    String::from_str("typst")
}

/// What a new or changed content block holds.
pub struct ContentBlockInput {
    pub title: String,
    pub content: String,
    pub category: String,
    pub tags: Vec<String>,
    pub format: String,
}

/// Which content blocks to list.
pub struct ContentSearchParams {
    pub query: Option<String>,
    pub category: Option<String>,
    pub tags: Option<Vec<String>>,
    pub limit: usize,
    pub offset: usize,
}

impl Default for ContentSearchParams {
    fn default() -> (p: Self)
        ensures
            p.query is None,
            p.category is None,
            p.tags is None,
            p.limit == 50,
            p.offset == 0,
    {
        ContentSearchParams { query: None, category: None, tags: None, limit: 50, offset: 0 }
    }
}

/// The parameters that list the blocks of one category.
pub fn category_params(category: String) -> (p: ContentSearchParams)
    ensures
        p.category == Some(category),
        p.query is None,
        p.tags is None,
        p.limit == 50,
        p.offset == 0,
{
    ContentSearchParams { query: None, category: Some(category), tags: None, limit: 50, offset: 0 }
}

/// The parameters that search the blocks for a text (twenty at most unless
/// another limit is given).
pub fn search_params(query: String, limit: Option<usize>) -> (p: ContentSearchParams)
    ensures
        p.query == Some(query),
        p.category is None,
        p.tags is None,
        p.limit == match limit {
            Some(l) => l,
            None => 20,
        },
        p.offset == 0,
{
    let limit = match limit {
        Some(l) => l,
        None => 20,
    };
    ContentSearchParams { query: Some(query), category: None, tags: None, limit, offset: 0 }
}

// ---- Queries ----------------------------------------------------------------

/// A text made safe inside single quotes: each quote doubled.
pub open spec fn quoted(s: Seq<char>) -> Seq<char> {
    replace_all(s, "'"@, "''"@)
}

/// The texts joined with a separator between each two.
pub open spec fn joined(ss: Seq<Seq<char>>, sep: Seq<char>) -> Seq<char>
    decreases ss.len(),
{
    if ss.len() == 0 {
        seq![]
    } else if ss.len() == 1 {
        ss[0]
    } else {
        joined(ss.drop_last(), sep) + sep + ss.last()
    }
}

/// The condition that a block has one of the tags.
pub open spec fn tag_condition(tag: Seq<char>) -> Seq<char> {
    "'"@ + quoted(tag) + "' IN tags"@
}

/// The conditions a listing of blocks puts on them.
pub open spec fn list_conditions(p: ContentSearchParams) -> Seq<Seq<char>> {
    (match p.category {
        Some(c) => seq!["category = '"@ + quoted(c@) + "'"@],
        None => seq![],
    }) + (match p.query {
        Some(q) => seq![
            "(title CONTAINS '"@ + quoted(q@) + "' OR content CONTAINS '"@ + quoted(q@) + "')"@,
        ],
        None => seq![],
    }) + (match p.tags {
        Some(ts) => if ts.len() > 0 {
            seq![
                "("@ + joined(
                    ts@.map_values(|t: String| tag_condition(t@)),
                    " OR "@,
                ) + ")"@,
            ]
        } else {
            seq![]
        },
        None => seq![],
    })
}

/// The query that lists content blocks: filtered by the conditions, newest
/// first, one page of them.
pub open spec fn list_query(p: ContentSearchParams) -> Seq<char> {
    let cs = list_conditions(p);
    "SELECT * FROM content_block"@ + (if cs.len() > 0 {
        " WHERE "@ + joined(cs, " AND "@)
    } else {
        seq![]
    }) + " ORDER BY updated_at DESC"@ + " LIMIT "@ + decimal(p.limit as nat) + " START "@
        + decimal(p.offset as nat)
}

fn quote(s: &str) -> (r: String)
    ensures
        r@ == quoted(s@),
{
    proof {
        reveal_strlit("'");
    }
    let v = chars_of(s);
    replace_str(v.as_slice(), "'", "''")
}

fn push_joined(out: &mut String, parts: &Vec<String>, sep: &str)
    ensures
        final(out)@ == old(out)@ + joined(parts.deep_view(), sep@),
{
    let ghost ps = parts.deep_view();
    let mut i: usize = 0;
    while i < parts.len()
        invariant
            i <= parts.len(),
            ps == parts.deep_view(),
            out@ == old(out)@ + joined(ps.take(i as int), sep@),
        decreases parts.len() - i,
    {
        proof {
            assert(ps.take(i + 1).drop_last() == ps.take(i as int));
            assert(ps.take(i + 1).last() == parts@[i as int]@);
            if i == 0 {
                assert(ps.take(1) == seq![ps[0]]);
            }
        }
        if i > 0 {
            out.append(sep);
        }
        out.append(parts[i].as_str());
        i = i + 1;
    }
    assert(ps.take(parts.len() as int) == ps);
}

fn tag_conditions(tags: &Vec<String>) -> (r: Vec<String>)
    ensures
        r.deep_view() == tags@.map_values(|t: String| tag_condition(t@)),
{
    let mut r: Vec<String> = Vec::new();
    let mut i: usize = 0;
    while i < tags.len()
        invariant
            i <= tags.len(),
            r.deep_view() == tags@.take(i as int).map_values(|t: String| tag_condition(t@)),
        decreases tags.len() - i,
    {
        let mut c = String::from_str("'");
        let q = quote(tags[i].as_str());
        c.append(q.as_str());
        c.append("' IN tags");
        let ghost before = r.deep_view();
        r.push(c);
        assert(r.deep_view() =~= before.push(tag_condition(tags@[i as int]@)));
        assert(tags@.take(i + 1).map_values(|t: String| tag_condition(t@)) =~= tags@.take(
            i as int,
        ).map_values(|t: String| tag_condition(t@)).push(tag_condition(tags@[i as int]@)));
        i = i + 1;
    }
    assert(tags@.take(tags.len() as int) == tags@);
    r
}

fn conditions_of(params: &ContentSearchParams) -> (r: Vec<String>)
    ensures
        r.deep_view() == list_conditions(*params),
{
    let mut conditions: Vec<String> = Vec::new();
    match &params.category {
        Some(c) => {
            let mut s = String::from_str("category = '");
            let q = quote(c.as_str());
            s.append(q.as_str());
            s.append("'");
            conditions.push(s);
        },
        None => {},
    }
    let ghost a = conditions.deep_view();
    match &params.query {
        Some(q) => {
            let e = quote(q.as_str());
            let mut s = String::from_str("(title CONTAINS '");
            s.append(e.as_str());
            s.append("' OR content CONTAINS '");
            s.append(e.as_str());
            s.append("')");
            conditions.push(s);
        },
        None => {},
    }
    let ghost b = conditions.deep_view();
    match &params.tags {
        Some(ts) => {
            if ts.len() > 0 {
                let tcs = tag_conditions(ts);
                let mut s = String::from_str("(");
                push_joined(&mut s, &tcs, " OR ");
                s.append(")");
                conditions.push(s);
            }
        },
        None => {},
    }
    assert(conditions.deep_view() =~= list_conditions(*params));
    conditions
}

/// The query that lists the content blocks the parameters select.
pub fn content_list_query(params: &ContentSearchParams) -> (q: String)
    ensures
        q@ == list_query(*params),
{
    let conditions = conditions_of(params);
    let mut query = String::from_str("SELECT * FROM content_block");
    let ghost head = query@;
    if conditions.len() > 0 {
        query.append(" WHERE ");
        push_joined(&mut query, &conditions, " AND ");
    }
    query.append(" ORDER BY updated_at DESC");
    query.append(" LIMIT ");
    push_decimal(&mut query, params.limit as u128);
    query.append(" START ");
    push_decimal(&mut query, params.offset as u128);
    assert(query@ =~= list_query(*params));
    query
}

/// A query listing the first `limit` records of a table by a field,
/// descending.
pub open spec fn top_query(table: Seq<char>, field: Seq<char>, limit: nat) -> Seq<char> {
    "SELECT * FROM "@ + table + " ORDER BY "@ + field + " DESC LIMIT "@ + decimal(limit)
}

fn top_records_query(table: &str, field: &str, limit: usize) -> (q: String)
    ensures
        q@ == top_query(table@, field@, limit as nat),
{
    let mut q = String::from_str("SELECT * FROM ");
    q.append(table);
    q.append(" ORDER BY ");
    q.append(field);
    q.append(" DESC LIMIT ");
    push_decimal(&mut q, limit as u128);
    q
}

/// The query for the most used blocks (ten unless another limit is given).
pub fn popular_blocks_query(limit: Option<usize>) -> (q: String)
    ensures
        q@ == top_query("content_block"@, "usage_count"@, match limit {
            Some(l) => l as nat,
            None => 10,
        }),
{
    let l = match limit {
        Some(l) => l,
        None => 10,
    };
    top_records_query("content_block", "usage_count", l)
}

/// The query for the most recently updated blocks (ten unless another limit
/// is given).
pub fn recent_blocks_query(limit: Option<usize>) -> (q: String)
    ensures
        q@ == top_query("content_block"@, "updated_at"@, match limit {
            Some(l) => l as nat,
            None => 10,
        }),
{
    let l = match limit {
        Some(l) => l,
        None => 10,
    };
    top_records_query("content_block", "updated_at", l)
}

/// The query for the most recently opened projects (ten unless another limit
/// is given).
pub fn recent_projects_query(limit: Option<usize>) -> (q: String)
    ensures
        q@ == top_query("project"@, "last_opened"@, match limit {
            Some(l) => l as nat,
            None => 10,
        }),
{
    let l = match limit {
        Some(l) => l,
        None => 10,
    };
    top_records_query("project", "last_opened", l)
}

/// The query for the most recently opened files (twenty unless another
/// limit is given).
pub fn recent_files_query(limit: Option<usize>) -> (q: String)
    ensures
        q@ == top_query("recent_file"@, "opened_at"@, match limit {
            Some(l) => l as nat,
            None => 20,
        }),
{
    let l = match limit {
        Some(l) => l,
        None => 20,
    };
    top_records_query("recent_file", "opened_at", l)
}

/// The record id of a content block.
pub fn block_record_id(id: &str) -> (r: String)
    ensures
        r@ == "content_block:"@ + id@,
{
    let mut r = String::from_str("content_block:");
    r.append(id);
    r
}

} // verus!

verus! {

// ---- Schema -------------------------------------------------------------------

/// The table of content blocks.
pub const CONTENT_BLOCK_SCHEMA: &'static str = r#"
                DEFINE TABLE IF NOT EXISTS content_block SCHEMAFULL;
                DEFINE FIELD IF NOT EXISTS title ON content_block TYPE string;
                DEFINE FIELD IF NOT EXISTS content ON content_block TYPE string;
                DEFINE FIELD IF NOT EXISTS category ON content_block TYPE string;
                DEFINE FIELD IF NOT EXISTS tags ON content_block TYPE array<string>;
                DEFINE FIELD IF NOT EXISTS format ON content_block TYPE string DEFAULT 'typst';
                DEFINE FIELD IF NOT EXISTS created_at ON content_block TYPE datetime DEFAULT time::now();
                DEFINE FIELD IF NOT EXISTS updated_at ON content_block TYPE datetime DEFAULT time::now();
                DEFINE FIELD IF NOT EXISTS usage_count ON content_block TYPE int DEFAULT 0;
                DEFINE FIELD IF NOT EXISTS embedding ON content_block TYPE option<array<float>>;
                DEFINE INDEX IF NOT EXISTS content_block_title ON content_block FIELDS title;
                DEFINE INDEX IF NOT EXISTS content_block_category ON content_block FIELDS category;
                DEFINE INDEX IF NOT EXISTS content_block_tags ON content_block FIELDS tags;
            "#;

/// The table of project metadata.
pub const PROJECT_SCHEMA: &'static str = r#"
                DEFINE TABLE IF NOT EXISTS project SCHEMAFULL;
                DEFINE FIELD IF NOT EXISTS name ON project TYPE string;
                DEFINE FIELD IF NOT EXISTS path ON project TYPE string;
                DEFINE FIELD IF NOT EXISTS description ON project TYPE option<string>;
                DEFINE FIELD IF NOT EXISTS template ON project TYPE option<string>;
                DEFINE FIELD IF NOT EXISTS created_at ON project TYPE datetime DEFAULT time::now();
                DEFINE FIELD IF NOT EXISTS last_opened ON project TYPE datetime DEFAULT time::now();
                DEFINE FIELD IF NOT EXISTS settings ON project TYPE option<object>;
                DEFINE INDEX IF NOT EXISTS project_path ON project FIELDS path UNIQUE;
            "#;

/// The table of user settings.
pub const SETTINGS_SCHEMA: &'static str = r#"
                DEFINE TABLE IF NOT EXISTS settings SCHEMAFULL;
                DEFINE FIELD IF NOT EXISTS key ON settings TYPE string;
                DEFINE FIELD IF NOT EXISTS value ON settings TYPE any;
                DEFINE FIELD IF NOT EXISTS updated_at ON settings TYPE datetime DEFAULT time::now();
                DEFINE INDEX IF NOT EXISTS settings_key ON settings FIELDS key UNIQUE;
            "#;

/// The table of content categories.
pub const CATEGORY_SCHEMA: &'static str = r#"
                DEFINE TABLE IF NOT EXISTS category SCHEMAFULL;
                DEFINE FIELD IF NOT EXISTS name ON category TYPE string;
                DEFINE FIELD IF NOT EXISTS description ON category TYPE option<string>;
                DEFINE FIELD IF NOT EXISTS color ON category TYPE option<string>;
                DEFINE FIELD IF NOT EXISTS icon ON category TYPE option<string>;
                DEFINE INDEX IF NOT EXISTS category_name ON category FIELDS name UNIQUE;
            "#;

/// The table of recent files.
pub const RECENT_FILE_SCHEMA: &'static str = r#"
                DEFINE TABLE IF NOT EXISTS recent_file SCHEMAFULL;
                DEFINE FIELD IF NOT EXISTS path ON recent_file TYPE string;
                DEFINE FIELD IF NOT EXISTS project_path ON recent_file TYPE option<string>;
                DEFINE FIELD IF NOT EXISTS opened_at ON recent_file TYPE datetime DEFAULT time::now();
                DEFINE INDEX IF NOT EXISTS recent_file_path ON recent_file FIELDS path UNIQUE;
            "#;

/// The table of pipeline templates.
pub const PIPELINE_TEMPLATE_SCHEMA: &'static str = r#"
                DEFINE TABLE IF NOT EXISTS pipeline_template SCHEMAFULL;
                DEFINE FIELD IF NOT EXISTS name ON pipeline_template TYPE string;
                DEFINE FIELD IF NOT EXISTS description ON pipeline_template TYPE option<string>;
                DEFINE FIELD IF NOT EXISTS nodes ON pipeline_template TYPE array;
                DEFINE FIELD IF NOT EXISTS edges ON pipeline_template TYPE array;
                DEFINE FIELD IF NOT EXISTS created_at ON pipeline_template TYPE datetime DEFAULT time::now();
                DEFINE FIELD IF NOT EXISTS updated_at ON pipeline_template TYPE datetime DEFAULT time::now();
                DEFINE INDEX IF NOT EXISTS pipeline_template_name ON pipeline_template FIELDS name UNIQUE;
            "#;

/// The statements that define the tables, in the order they run.
pub open spec fn schema() -> Seq<Seq<char>> {
    seq![CONTENT_BLOCK_SCHEMA@, PROJECT_SCHEMA@, SETTINGS_SCHEMA@, CATEGORY_SCHEMA@, RECENT_FILE_SCHEMA@, PIPELINE_TEMPLATE_SCHEMA@]
}

/// The statements that define the tables of the database, in order.
pub fn schema_queries() -> (r: Vec<&'static str>)
    ensures
        r@.map_values(|q: &str| q@) == schema(),
{
    let mut v: Vec<&'static str> = Vec::new();
    v.push(CONTENT_BLOCK_SCHEMA);
    v.push(PROJECT_SCHEMA);
    v.push(SETTINGS_SCHEMA);
    v.push(CATEGORY_SCHEMA);
    v.push(RECENT_FILE_SCHEMA);
    v.push(PIPELINE_TEMPLATE_SCHEMA);
    assert(v@.map_values(|q: &str| q@) =~= schema());
    v
}

} // verus!

verus! {

/// A character inside a quoted query text: a quote doubled, any other
/// character as it is.
pub open spec fn quoted_char(c: char) -> Seq<char> {
    if c == '\'' {
        seq!['\'', '\'']
    } else {
        seq![c]
    }
}

proof fn lemma_flat_map_front(s: Seq<char>, f: spec_fn(char) -> Seq<char>)
    requires
        s.len() > 0,
    ensures
        s.flat_map(f) == f(s[0]) + s.drop_first().flat_map(f),
    decreases s.len(),
{
    if s.len() == 1 {
        s.lemma_flat_map_singleton(f);
        assert(s.drop_first() =~= Seq::<char>::empty());
        assert(s.drop_first().flat_map(f) =~= Seq::<char>::empty());
    } else {
        let init = s.drop_last();
        lemma_flat_map_front(init, f);
        assert(init.push(s.last()) == s);
        init.lemma_flat_map_push(f, s.last());
        let rest = s.drop_first();
        assert(init.drop_first().push(s.last()) == rest);
        init.drop_first().lemma_flat_map_push(f, s.last());
    }
}

/// Law: quoting a text for a query doubles each single quote and keeps every
/// other character, so a quoted text can never end the string it stands in.
pub proof fn lemma_quoted_doubles_quotes(s: Seq<char>)
    ensures
        quoted(s) == s.flat_map(|c: char| quoted_char(c)),
    decreases s.len(),
{
    reveal_strlit("'");
    reveal_strlit("''");
    let f = |c: char| quoted_char(c);
    if s.len() == 0 {
        assert(s.flat_map(f) =~= Seq::<char>::empty());
    } else {
        lemma_quoted_doubles_quotes(s.drop_first());
        lemma_flat_map_front(s, f);
        assert(s.skip(1) == s.drop_first());
        if s[0] == '\'' {
            assert(crate::text::starts_with(s, "'"@)) by {
                assert(s.subrange(0, 1) =~= "'"@);
            }
            assert("''"@ =~= quoted_char(s[0]));
        } else {
            assert(!crate::text::starts_with(s, "'"@)) by {
                assert(s.subrange(0, 1)[0] == s[0]);
            }
        }
    }
}

} // verus!

verus! {

// ---- Registering projects -----------------------------------------------------

/// A project as the registry records it: its record id (once stored), name,
/// path, description and template, when it was created and last opened
/// (RFC 3339 timestamps), and its settings as JSON text.
#[derive(Clone)]
pub struct ProjectMeta {
    pub id: Option<String>,
    pub name: String,
    pub path: String,
    pub description: Option<String>,
    pub template: Option<String>,
    pub created_at: String,
    pub last_opened: String,
    pub settings: Option<String>,
}

/// What registering a project does with the registry.
pub enum RegisterStep {
    /// The path is registered already: the stored project, reopened now; its
    /// record `id` gets the new opening time.
    Reopen { id: String, project: ProjectMeta },
    /// The path is new: this project is to be created.
    Create { project: ProjectMeta },
}

/// The registration step for the project at `path`: the stored project
/// (`existing`) reopened at `now`, or a new project created at `now`.
pub open spec fn registration(
    existing: Option<ProjectMeta>,
    name: String,
    path: String,
    description: Option<String>,
    template: Option<String>,
    now: String,
) -> RegisterStep {
    match existing {
        Some(p) => RegisterStep::Reopen {
            id: p.id->0,
            project: ProjectMeta {
                id: p.id,
                name: p.name,
                path: p.path,
                description: p.description,
                template: p.template,
                created_at: p.created_at,
                last_opened: now,
                settings: p.settings,
            },
        },
        None => RegisterStep::Create {
            project: ProjectMeta {
                id: None,
                name,
                path,
                description,
                template,
                created_at: now,
                last_opened: now,
                settings: None,
            },
        },
    }
}

/// Decides how to register the project at `path`, given the project already
/// registered for that path (if any) and the current time `now`. A stored
/// project is reopened; otherwise a new one is created, opened now, without
/// settings (see `registration`). A stored project always carries its record
/// id.
pub fn register_step(
    existing: Option<ProjectMeta>,
    name: String,
    path: String,
    description: Option<String>,
    template: Option<String>,
    now: String,
) -> (r: RegisterStep)
    requires
        existing matches Some(p) ==> p.id is Some,
    ensures
        r == registration(existing, name, path, description, template, now),
{
    match existing {
        Some(p) => {
            let id = match &p.id {
                Some(i) => i.clone(),
                None => String::new(),
            };
            let project = ProjectMeta {
                id: p.id,
                name: p.name,
                path: p.path,
                description: p.description,
                template: p.template,
                created_at: p.created_at,
                last_opened: now,
                settings: p.settings,
            };
            RegisterStep::Reopen { id, project }
        },
        None => RegisterStep::Create {
            project: ProjectMeta {
                id: None,
                name,
                path,
                description,
                template,
                created_at: now.clone(),
                last_opened: now,
                settings: None,
            },
        },
    }
}

/// The message when the registry does not hand back the created project.
pub open spec fn register_failed_message() -> Seq<char> {
    "Failed to register project"@
}

/// The project the registry stored on creation, or the failure to report
/// when it handed back none.
pub fn registered(created: Option<ProjectMeta>) -> (r: Result<ProjectMeta, String>)
    ensures
        match created {
            Some(p) => r == Ok::<ProjectMeta, String>(p),
            None => r matches Err(e) && e@ == register_failed_message(),
        },
{
    match created {
        Some(p) => Ok(p),
        None => Err(String::from_str("Failed to register project")),
    }
}

} // verus!

verus! {

// ---- The project registry -------------------------------------------------------

/// The project registered for `path` in a registry table, if any.
pub open spec fn record_for_path(table: Seq<ProjectMeta>, path: String) -> Option<ProjectMeta> {
    if exists|i: int| 0 <= i < table.len() && (#[trigger] table[i]).path == path {
        Some(table[choose|i: int| 0 <= i < table.len() && (#[trigger] table[i]).path == path])
    } else {
        None
    }
}

/// A record with its opening time set.
pub open spec fn reopened(r: ProjectMeta, last_opened: String) -> ProjectMeta {
    ProjectMeta {
        id: r.id,
        name: r.name,
        path: r.path,
        description: r.description,
        template: r.template,
        created_at: r.created_at,
        last_opened,
        settings: r.settings,
    }
}

/// A project as stored under the record id `id`.
pub open spec fn stored_as(p: ProjectMeta, id: String) -> ProjectMeta {
    ProjectMeta {
        id: Some(id),
        name: p.name,
        path: p.path,
        description: p.description,
        template: p.template,
        created_at: p.created_at,
        last_opened: p.last_opened,
        settings: p.settings,
    }
}

/// The registry table after a registration step: a reopened record gets its
/// new opening time; a created project is added under the record id the
/// database gives it (`new_id`).
pub open spec fn registry_after(table: Seq<ProjectMeta>, step: RegisterStep, new_id: String) -> Seq<
    ProjectMeta,
> {
    match step {
        RegisterStep::Reopen { id, project } => table.map_values(
            |r: ProjectMeta|
                if r.id == Some(id) {
                    reopened(r, project.last_opened)
                } else {
                    r
                },
        ),
        RegisterStep::Create { project } => table.push(stored_as(project, new_id)),
    }
}

/// The registry table after registering the project at `path`.
pub open spec fn register_in(
    table: Seq<ProjectMeta>,
    name: String,
    path: String,
    description: Option<String>,
    template: Option<String>,
    now: String,
    new_id: String,
) -> Seq<ProjectMeta> {
    registry_after(
        table,
        registration(record_for_path(table, path), name, path, description, template, now),
        new_id,
    )
}

/// No two records of the table share a path.
pub open spec fn paths_distinct(table: Seq<ProjectMeta>) -> bool {
    forall|i: int, j: int|
        0 <= i < j < table.len() ==> (#[trigger] table[i]).path != (#[trigger] table[j]).path
}

/// Every record of the table has its record id.
pub open spec fn ids_present(table: Seq<ProjectMeta>) -> bool {
    forall|i: int| 0 <= i < table.len() ==> (#[trigger] table[i]).id is Some
}

/// Exactly one record of the table has the path.
pub open spec fn one_record_for(table: Seq<ProjectMeta>, path: String) -> bool {
    exists|i: int|
        0 <= i < table.len() && (#[trigger] table[i]).path == path && forall|j: int|
            0 <= j < table.len() && (#[trigger] table[j]).path == path ==> j == i
}

/// Law: registering a project keeps one record per path. Afterwards exactly
/// one record has the registered path, every record still has its id, and
/// the table has grown by one record when the path was new and not at all
/// when it was registered already (its other records keep their paths).
pub proof fn lemma_register_keeps_one_record_per_path(
    table: Seq<ProjectMeta>,
    name: String,
    path: String,
    description: Option<String>,
    template: Option<String>,
    now: String,
    new_id: String,
)
    requires
        paths_distinct(table),
        ids_present(table),
    ensures
        ({
            let after = register_in(table, name, path, description, template, now, new_id);
            &&& paths_distinct(after)
            &&& ids_present(after)
            &&& one_record_for(after, path)
            &&& after.len() == table.len() + (if record_for_path(table, path) is Some {
                0int
            } else {
                1int
            })
        }),
{
    let after = register_in(table, name, path, description, template, now, new_id);
    if exists|i: int| 0 <= i < table.len() && (#[trigger] table[i]).path == path {
        let k = choose|i: int| 0 <= i < table.len() && (#[trigger] table[i]).path == path;
        let p = table[k];
        assert(record_for_path(table, path) == Some(p));
        let id = p.id->0;
        assert(forall|i: int| 0 <= i < table.len() ==> (#[trigger] after[i]).path == table[i].path
            && after[i].id == table[i].id);
        assert(after.len() == table.len());
        assert(after[k].path == path);
        assert forall|j: int| 0 <= j < after.len() && (#[trigger] after[j]).path == path implies j
            == k by {
            assert(after[j].path == table[j].path);
            if j < k {
                assert(table[j].path != table[k].path);
            } else if k < j {
                assert(table[k].path != table[j].path);
            }
        }
        assert(paths_distinct(after)) by {
            assert forall|i: int, j: int| 0 <= i < j < after.len() implies (
            #[trigger] after[i]).path != (#[trigger] after[j]).path by {
                assert(table[i].path != table[j].path);
            }
        }
    } else {
        assert(record_for_path(table, path) is None);
        let n = table.len() as int;
        assert(after.len() == n + 1);
        assert(after[n].path == path);
        assert(forall|i: int| 0 <= i < n ==> (#[trigger] after[i]) == table[i]);
        assert forall|j: int| 0 <= j < after.len() && (#[trigger] after[j]).path == path implies j
            == n by {
            if j < n {
                assert(after[j] == table[j]);
            }
        }
        assert(paths_distinct(after)) by {
            assert forall|i: int, j: int| 0 <= i < j < after.len() implies (
            #[trigger] after[i]).path != (#[trigger] after[j]).path by {
                assert(after[i] == table[i]);
                if j < n {
                    assert(after[j] == table[j]);
                } else {
                    assert(table[i].path != path);
                }
            }
        }
        assert(ids_present(after)) by {
            assert forall|i: int| 0 <= i < after.len() implies (#[trigger] after[i]).id is Some by {
                if i < n {
                    assert(after[i] == table[i]);
                }
            }
        }
    }
    assert(one_record_for(after, path));
}

/// Law: registering the same path twice keeps a single record for it; the
/// second registration adds no record. `first` and `second` give each
/// registration's name, description, template, time and the record id the
/// database would give a created project.
pub proof fn lemma_register_twice_keeps_one_record(
    table: Seq<ProjectMeta>,
    path: String,
    first: (String, Option<String>, Option<String>, String, String),
    second: (String, Option<String>, Option<String>, String, String),
)
    requires
        paths_distinct(table),
        ids_present(table),
    ensures
        ({
            let once = register_in(table, first.0, path, first.1, first.2, first.3, first.4);
            let twice = register_in(once, second.0, path, second.1, second.2, second.3, second.4);
            &&& one_record_for(twice, path)
            &&& paths_distinct(twice)
            &&& twice.len() == once.len()
        }),
{
    let once = register_in(table, first.0, path, first.1, first.2, first.3, first.4);
    lemma_register_keeps_one_record_per_path(table, first.0, path, first.1, first.2, first.3, first.4);
    lemma_register_keeps_one_record_per_path(once, second.0, path, second.1, second.2, second.3, second.4);
    let k = choose|i: int|
        0 <= i < once.len() && (#[trigger] once[i]).path == path && forall|j: int|
            0 <= j < once.len() && (#[trigger] once[j]).path == path ==> j == i;
    assert(once[k].path == path);
    assert(record_for_path(once, path) is Some);
}

} // verus!
