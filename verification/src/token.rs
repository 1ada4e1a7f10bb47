//! The token that binds a repair to the preview that was shown.

use crate::digest;
use crate::digest::hash_bytes;
use crate::json;
use crate::json::{render, Json, JsonView};
use crate::locality::{WorkspaceHintUpdate, WorkspaceHintUpdateView};
use crate::model::Model;
use crate::ordered;
use crate::ordered::{sort_items, sort_pairs, OrderedSet};
use crate::planning;
use crate::planning::{
    sort_reasons, CatalogDelete, CatalogDeleteView, CatalogInsert, CatalogInsertView, CatalogUpdate,
    CatalogUpdateView, RepairPlan, RepairPlanView, RolloutUpdate, RolloutUpdateView, SkipReason,
    SkipReasonView, StateDelete, StateDeleteView, StateUpdate, StateUpdateView,
};
use crate::projection;
use crate::projection::{
    CatalogState, CatalogStateView, PlanCategory, PlanMatrix, PlanOperations, PlanOperationsView,
    PlannedSession, PlannedSessionView, ProjectionRecord, ProjectionRecordView, ProjectionStore,
    ProjectionStoreView, ProviderPlanPreview, ProviderPlanPreviewView, SourceProvider,
    SourceProviderView,
};
use crate::providers;
use crate::reals;
use crate::reals::is_finite;
use crate::sessions;
use crate::sessions::{StateInsert, StateInsertView};
use crate::text;
use crate::text::join3;
use vstd::prelude::*;

verus! {

/// A write with a JSON form.
pub trait Encoded: Model {
    /// The JSON form of a write.
    spec fn encoding(write: Self::V) -> JsonView;

    /// The JSON form of the write.
    fn encode(&self) -> (r: Json)
        ensures
            r.deep_view() == Self::encoding(self.deep_view()),
    ;
}

impl Encoded for StateUpdate {
    open spec fn encoding(write: StateUpdateView) -> JsonView {
        let json = json::empty_object();
        let json = json::with(json, "thread_id"@, JsonView::Text(write.thread_id));
        let json = json::with(json, "expected_rollout_path"@, JsonView::Text(write.expected_rollout_path));
        let json = json::with(json, "expected_provider"@, JsonView::Text(write.expected_provider));
        let json = json::with(json, "expected_archived"@, JsonView::Bool(write.expected_archived));
        let json = json::with(json, "expected_thread_source"@, JsonView::Text(write.expected_thread_source));
        let json = json::with(json, "expected_has_user_event"@, JsonView::Bool(write.expected_has_user_event));
        let json = json::with(json, "rollout_path"@, JsonView::Text(write.rollout_path));
        let json = json::with(json, "provider"@, JsonView::Text(write.provider));
        let json = json::with(json, "archived"@, JsonView::Bool(write.archived));
        let json = json::with(json, "thread_source"@, JsonView::Text(write.thread_source));
        let json = json::with(json, "has_user_event"@, JsonView::Bool(write.has_user_event));
        json
    }

    fn encode(&self) -> (r: Json) {
        let json = Json::object();
        let json = json.with("thread_id", Json::text(self.thread_id.as_str()));
        let json = json.with("expected_rollout_path", Json::text(self.expected_rollout_path.as_str()));
        let json = json.with("expected_provider", Json::text(self.expected_provider.as_str()));
        let json = json.with("expected_archived", Json::Bool(self.expected_archived));
        let json = json.with("expected_thread_source", Json::text(self.expected_thread_source.as_str()));
        let json = json.with("expected_has_user_event", Json::Bool(self.expected_has_user_event));
        let json = json.with("rollout_path", Json::text(self.rollout_path.as_str()));
        let json = json.with("provider", Json::text(self.provider.as_str()));
        let json = json.with("archived", Json::Bool(self.archived));
        let json = json.with("thread_source", Json::text(self.thread_source.as_str()));
        let json = json.with("has_user_event", Json::Bool(self.has_user_event));
        json
    }
}

impl Encoded for StateInsert {
    open spec fn encoding(write: StateInsertView) -> JsonView {
        let json = json::empty_object();
        let json = json::with(json, "thread_id"@, JsonView::Text(write.thread_id));
        let json = json::with(json, "rollout_path"@, JsonView::Text(write.rollout_path));
        let json = json::with(json, "archived"@, JsonView::Bool(write.archived));
        let json = json::with(json, "created_at"@, JsonView::Number(text::signed_text(write.created_at as int)));
        let json = json::with(json, "updated_at"@, JsonView::Number(text::signed_text(write.updated_at as int)));
        let json = json::with(json, "source"@, JsonView::Text(write.source));
        let json = json::with(json, "thread_source"@, JsonView::Text(write.thread_source));
        let json = json::with(json, "provider"@, JsonView::Text(write.provider));
        let json = json::with(json, "cwd"@, JsonView::Text(write.cwd));
        let json = json::with(json, "title"@, JsonView::Text(write.title));
        let json = json::with(json, "sandbox_policy"@, JsonView::Text(write.sandbox_policy));
        let json = json::with(json, "approval_mode"@, JsonView::Text(write.approval_mode));
        let json = json::with(json, "cli_version"@, JsonView::Text(write.cli_version));
        let json = json::with(json, "first_user_message"@, JsonView::Text(write.first_user_message));
        let json = json::with(json, "preview"@, JsonView::Text(write.preview));
        let json = json::with(json, "has_user_event"@, JsonView::Bool(write.has_user_event));
        let json = json::with(json, "git_sha"@, json::optional_text(write.git_sha));
        let json = json::with(json, "git_branch"@, json::optional_text(write.git_branch));
        let json = json::with(json, "git_origin_url"@, json::optional_text(write.git_origin_url));
        json
    }

    fn encode(&self) -> (r: Json) {
        let json = Json::object();
        let json = json.with("thread_id", Json::text(self.thread_id.as_str()));
        let json = json.with("rollout_path", Json::text(self.rollout_path.as_str()));
        let json = json.with("archived", Json::Bool(self.archived));
        let json = json.with("created_at", Json::signed_number(self.created_at));
        let json = json.with("updated_at", Json::signed_number(self.updated_at));
        let json = json.with("source", Json::text(self.source.as_str()));
        let json = json.with("thread_source", Json::text(self.thread_source.as_str()));
        let json = json.with("provider", Json::text(self.provider.as_str()));
        let json = json.with("cwd", Json::text(self.cwd.as_str()));
        let json = json.with("title", Json::text(self.title.as_str()));
        let json = json.with("sandbox_policy", Json::text(self.sandbox_policy.as_str()));
        let json = json.with("approval_mode", Json::text(self.approval_mode.as_str()));
        let json = json.with("cli_version", Json::text(self.cli_version.as_str()));
        let json = json.with("first_user_message", Json::text(self.first_user_message.as_str()));
        let json = json.with("preview", Json::text(self.preview.as_str()));
        let json = json.with("has_user_event", Json::Bool(self.has_user_event));
        let json = json.with("git_sha", Json::optional_text(&self.git_sha));
        let json = json.with("git_branch", Json::optional_text(&self.git_branch));
        let json = json.with("git_origin_url", Json::optional_text(&self.git_origin_url));
        json
    }
}

impl Encoded for StateDelete {
    open spec fn encoding(write: StateDeleteView) -> JsonView {
        let json = json::empty_object();
        let json = json::with(json, "thread_id"@, JsonView::Text(write.thread_id));
        let json = json::with(json, "expected_provider"@, JsonView::Text(write.expected_provider));
        let json = json::with(json, "expected_rollout_path"@, JsonView::Text(write.expected_rollout_path));
        json
    }

    fn encode(&self) -> (r: Json) {
        let json = Json::object();
        let json = json.with("thread_id", Json::text(self.thread_id.as_str()));
        let json = json.with("expected_provider", Json::text(self.expected_provider.as_str()));
        let json = json.with("expected_rollout_path", Json::text(self.expected_rollout_path.as_str()));
        json
    }
}

impl Encoded for RolloutUpdate {
    open spec fn encoding(write: RolloutUpdateView) -> JsonView {
        let json = json::empty_object();
        let json = json::with(json, "thread_id"@, JsonView::Text(write.thread_id));
        let json = json::with(json, "path"@, JsonView::Text(write.path));
        let json = json::with(json, "archived"@, JsonView::Bool(write.archived));
        let json = json::with(json, "expected_provider"@, json::optional_text(write.expected_provider));
        let json = json::with(json, "provider"@, json::optional_text(write.provider));
        json
    }

    fn encode(&self) -> (r: Json) {
        let json = Json::object();
        let json = json.with("thread_id", Json::text(self.thread_id.as_str()));
        let json = json.with("path", Json::text(self.path.as_str()));
        let json = json.with("archived", Json::Bool(self.archived));
        let json = json.with("expected_provider", Json::optional_text(&self.expected_provider));
        let json = json.with("provider", Json::optional_text(&self.provider));
        json
    }
}

impl Encoded for CatalogUpdate {
    open spec fn encoding(write: CatalogUpdateView) -> JsonView {
        let json = json::empty_object();
        let json = json::with(json, "host_id"@, JsonView::Text(write.host_id));
        let json = json::with(json, "thread_id"@, JsonView::Text(write.thread_id));
        let json = json::with(json, "expected_provider"@, JsonView::Text(write.expected_provider));
        let json = json::with(json, "expected_missing_candidate"@, JsonView::Bool(write.expected_missing_candidate));
        let json = json::with(json, "provider"@, JsonView::Text(write.provider));
        let json = json::with(json, "missing_candidate"@, JsonView::Bool(write.missing_candidate));
        json
    }

    fn encode(&self) -> (r: Json) {
        let json = Json::object();
        let json = json.with("host_id", Json::text(self.host_id.as_str()));
        let json = json.with("thread_id", Json::text(self.thread_id.as_str()));
        let json = json.with("expected_provider", Json::text(self.expected_provider.as_str()));
        let json = json.with("expected_missing_candidate", Json::Bool(self.expected_missing_candidate));
        let json = json.with("provider", Json::text(self.provider.as_str()));
        let json = json.with("missing_candidate", Json::Bool(self.missing_candidate));
        json
    }
}

/// A real number in JSON. JSON has no infinite numbers.
pub open spec fn real_json(text: Seq<char>) -> JsonView {
    if reals::finite(text) {
        JsonView::Number(text)
    } else {
        JsonView::Null
    }
}

fn encode_real(text: &str) -> (r: Json)
    ensures
        r.deep_view() == real_json(text@),
{
    if is_finite(text) {
        Json::Number(text.to_owned())
    } else {
        Json::Null
    }
}

impl Encoded for CatalogInsert {
    open spec fn encoding(write: CatalogInsertView) -> JsonView {
        let json = json::empty_object();
        let json = json::with(json, "host_id"@, JsonView::Text(write.host_id));
        let json = json::with(json, "thread_id"@, JsonView::Text(write.thread_id));
        let json = json::with(json, "title"@, JsonView::Text(write.title));
        let json = json::with(json, "created_at"@, real_json(write.created_at));
        let json = json::with(json, "updated_at"@, real_json(write.updated_at));
        let json = json::with(json, "cwd"@, JsonView::Text(write.cwd));
        let json = json::with(json, "source_detail"@, JsonView::Text(write.source_detail));
        let json = json::with(json, "source_kind"@, JsonView::Text(write.source_kind));
        let json = json::with(json, "provider"@, JsonView::Text(write.provider));
        let json = json::with(json, "git_branch"@, json::optional_text(write.git_branch));
        json
    }

    fn encode(&self) -> (r: Json) {
        let json = Json::object();
        let json = json.with("host_id", Json::text(self.host_id.as_str()));
        let json = json.with("thread_id", Json::text(self.thread_id.as_str()));
        let json = json.with("title", Json::text(self.title.as_str()));
        let json = json.with("created_at", encode_real(self.created_at.as_str()));
        let json = json.with("updated_at", encode_real(self.updated_at.as_str()));
        let json = json.with("cwd", Json::text(self.cwd.as_str()));
        let json = json.with("source_detail", Json::text(self.source_detail.as_str()));
        let json = json.with("source_kind", Json::text(self.source_kind.as_str()));
        let json = json.with("provider", Json::text(self.provider.as_str()));
        let json = json.with("git_branch", Json::optional_text(&self.git_branch));
        json
    }
}

impl Encoded for CatalogDelete {
    open spec fn encoding(write: CatalogDeleteView) -> JsonView {
        let json = json::empty_object();
        let json = json::with(json, "host_id"@, JsonView::Text(write.host_id));
        let json = json::with(json, "thread_id"@, JsonView::Text(write.thread_id));
        let json = json::with(json, "expected_provider"@, JsonView::Text(write.expected_provider));
        let json = json::with(json, "expected_missing_candidate"@, JsonView::Bool(write.expected_missing_candidate));
        json
    }

    fn encode(&self) -> (r: Json) {
        let json = Json::object();
        let json = json.with("host_id", Json::text(self.host_id.as_str()));
        let json = json.with("thread_id", Json::text(self.thread_id.as_str()));
        let json = json.with("expected_provider", Json::text(self.expected_provider.as_str()));
        let json = json.with("expected_missing_candidate", Json::Bool(self.expected_missing_candidate));
        json
    }
}

impl Encoded for WorkspaceHintUpdate {
    open spec fn encoding(write: WorkspaceHintUpdateView) -> JsonView {
        let json = json::empty_object();
        let json = json::with(json, "threadId"@, JsonView::Text(write.thread_id));
        let json = json::with(
            json,
            "expectedHint"@,
            match write.expected_hint {
                Some(hint) => hint,
                None => JsonView::Null,
            },
        );
        json::with(json, "workspaceRoot"@, JsonView::Text(write.workspace_root))
    }

    fn encode(&self) -> (r: Json) {
        let hint = match &self.expected_hint {
            Some(hint) => hint.copy_of(),
            None => Json::Null,
        };
        let json = Json::object();
        let json = json.with("threadId", Json::text(self.thread_id.as_str()));
        let json = json.with("expectedHint", hint);
        json.with("workspaceRoot", Json::text(self.workspace_root.as_str()))
    }
}

/// The written forms of writes, in ascending order.
pub open spec fn encoded_writes<T: Encoded>(writes: Seq<T::V>) -> JsonView {
    json::text_list(
        ordered::sorted_items::<String>(
            writes.map_values(|write: T::V| json::rendered(T::encoding(write))),
        ),
    )
}

/// The written forms of writes, in ascending order.
pub fn encode_writes<T: Encoded>(writes: &Vec<T>) -> (r: Json)
    ensures
        r.deep_view() == encoded_writes::<T>(writes.deep_view()),
{
    let ghost view = writes.deep_view();
    let mut forms: Vec<String> = Vec::new();
    let mut i: usize = 0;
    while i < writes.len()
        invariant
            i <= writes@.len(),
            view == writes.deep_view(),
            forms@.len() == i,
            forall|j: int|
                0 <= j < i ==> #[trigger] forms@[j]@ == json::rendered(T::encoding(view[j])),
        decreases writes@.len() - i,
    {
        assert(view[i as int] == writes@[i as int].deep_view());
        forms.push(render(&writes[i].encode()));
        i += 1;
    }
    assert(forms.deep_view() =~= view.map_values(
        |write: T::V| json::rendered(T::encoding(write)),
    ));
    let sorted = sort_items(&forms);
    Json::text_list(&sorted)
}

/// The word for a category.
pub open spec fn category_word(category: PlanCategory) -> Seq<char> {
    match category {
        PlanCategory::Aligned => "aligned"@,
        PlanCategory::CatalogUpdateOnly => "catalogUpdateOnly"@,
        PlanCategory::CatalogInsertOnly => "catalogInsertOnly"@,
        PlanCategory::StateUpdateOnly => "stateUpdateOnly"@,
        PlanCategory::StateAndCatalogUpdate => "stateAndCatalogUpdate"@,
        PlanCategory::StateAndCatalogInsert => "stateAndCatalogInsert"@,
    }
}

fn word_of_category(category: PlanCategory) -> (r: &'static str)
    ensures
        r@ == category_word(category),
{
    match category {
        PlanCategory::Aligned => "aligned",
        PlanCategory::CatalogUpdateOnly => "catalogUpdateOnly",
        PlanCategory::CatalogInsertOnly => "catalogInsertOnly",
        PlanCategory::StateUpdateOnly => "stateUpdateOnly",
        PlanCategory::StateAndCatalogUpdate => "stateAndCatalogUpdate",
        PlanCategory::StateAndCatalogInsert => "stateAndCatalogInsert",
    }
}

/// A number.
pub open spec fn number(value: nat) -> JsonView {
    JsonView::Number(text::decimal_text(value))
}

/// The identity of a planned session: what a shown plan says of it.
pub open spec fn session_row(session: PlannedSessionView) -> JsonView {
    let json = json::empty_object();
    let json = json::with(json, "category"@, JsonView::Text(category_word(session.category)));
    let json = json::with(
        json,
        "originProvider"@,
        JsonView::Text(projection::provider_id(session.origin_provider)),
    );
    let json = json::with(json, "threadId"@, JsonView::Text(session.thread_id));
    json::with(
        json,
        "updatedAt"@,
        JsonView::Number(text::signed_text(session.updated_at as int)),
    )
}

fn encode_session(session: &PlannedSession) -> (r: Json)
    ensures
        r.deep_view() == session_row(session.deep_view()),
{
    let json = Json::object();
    let json = json.with("category", Json::text(word_of_category(session.category)));
    let json = json.with("originProvider", Json::text(session.origin_provider.as_str()));
    let json = json.with("threadId", Json::text(session.thread_id.as_str()));
    json.with("updatedAt", Json::signed_number(session.updated_at))
}

/// The planned sessions in ascending order of their threads.
pub open spec fn session_rows(sessions: Seq<PlannedSessionView>) -> JsonView {
    JsonView::Array(
        ordered::sorted_pairs::<String, PlannedSessionView>(
            sessions.map_values(|session: PlannedSessionView| (session.thread_id, session)),
        ).map_values(|pair: (Seq<char>, PlannedSessionView)| session_row(pair.1)),
    )
}

fn encode_sessions(sessions: &Vec<PlannedSession>) -> (r: Json)
    ensures
        r.deep_view() == session_rows(sessions.deep_view()),
{
    let ghost view = sessions.deep_view();
    let mut pairs: Vec<(String, PlannedSession)> = Vec::new();
    let mut i: usize = 0;
    while i < sessions.len()
        invariant
            i <= sessions@.len(),
            view == sessions.deep_view(),
            pairs@.len() == i,
            forall|j: int|
                0 <= j < i ==> #[trigger] pairs@[j].deep_view() == (view[j].thread_id, view[j]),
        decreases sessions@.len() - i,
    {
        assert(view[i as int] == sessions@[i as int].deep_view());
        pairs.push((sessions[i].thread_id.copy_of(), sessions[i].copy_of()));
        i += 1;
    }
    assert(pairs.deep_view() =~= view.map_values(
        |session: PlannedSessionView| (session.thread_id, session),
    ));
    let sorted = sort_pairs(pairs);
    let ghost ordered_view = sorted.deep_view();
    let mut items: Vec<Json> = Vec::new();
    let mut k: usize = 0;
    while k < sorted.len()
        invariant
            k <= sorted@.len(),
            ordered_view == sorted.deep_view(),
            items@.len() == k,
            forall|j: int|
                0 <= j < k ==> json::json_view(#[trigger] items@[j]) == session_row(
                    ordered_view[j].1,
                ),
        decreases sorted@.len() - k,
    {
        assert(ordered_view[k as int].1 == sorted@[k as int].1.deep_view());
        items.push(encode_session(&sorted[k].1));
        k += 1;
    }
    let r = Json::Array(items);
    assert(r.deep_view()->Array_0 =~= session_rows(view)->Array_0);
    r
}

/// The counts of a plan.
pub open spec fn matrix_form(matrix: PlanMatrix) -> JsonView {
    let json = json::empty_object();
    let json = json::with(json, "aligned"@, number(matrix.aligned as nat));
    let json = json::with(json, "catalogInsertOnly"@, number(matrix.catalog_insert_only as nat));
    let json = json::with(json, "catalogUpdateOnly"@, number(matrix.catalog_update_only as nat));
    let json = json::with(
        json,
        "stateAndCatalogInsert"@,
        number(matrix.state_and_catalog_insert as nat),
    );
    let json = json::with(
        json,
        "stateAndCatalogUpdate"@,
        number(matrix.state_and_catalog_update as nat),
    );
    json::with(json, "stateUpdateOnly"@, number(matrix.state_update_only as nat))
}

fn encode_matrix(matrix: &PlanMatrix) -> (r: Json)
    ensures
        r.deep_view() == matrix_form(*matrix),
{
    let json = Json::object();
    let json = json.with("aligned", Json::number(matrix.aligned as u64));
    let json = json.with("catalogInsertOnly", Json::number(matrix.catalog_insert_only as u64));
    let json = json.with("catalogUpdateOnly", Json::number(matrix.catalog_update_only as u64));
    let json = json.with(
        "stateAndCatalogInsert",
        Json::number(matrix.state_and_catalog_insert as u64),
    );
    let json = json.with(
        "stateAndCatalogUpdate",
        Json::number(matrix.state_and_catalog_update as u64),
    );
    json.with("stateUpdateOnly", Json::number(matrix.state_update_only as u64))
}

/// The writes that a plan comes to.
pub open spec fn operations_form(operations: PlanOperationsView) -> JsonView {
    let json = json::empty_object();
    let json = json::with(json, "catalogInserts"@, number(operations.catalog_inserts as nat));
    let json = json::with(json, "catalogUpdates"@, number(operations.catalog_updates as nat));
    let json = json::with(json, "changedThreads"@, number(operations.changed_threads as nat));
    json::with(json, "stateUpdates"@, number(operations.state_updates as nat))
}

fn encode_operations(operations: &PlanOperations) -> (r: Json)
    ensures
        r.deep_view() == operations_form(operations.deep_view()),
{
    let json = Json::object();
    let json = json.with("catalogInserts", Json::number(operations.catalog_inserts as u64));
    let json = json.with("catalogUpdates", Json::number(operations.catalog_updates as u64));
    let json = json.with("changedThreads", Json::number(operations.changed_threads as u64));
    json.with("stateUpdates", Json::number(operations.state_updates as u64))
}

/// The ids of providers, in ascending order of the providers.
pub open spec fn source_ids(sources: Set<SourceProviderView>) -> Seq<Seq<char>> {
    ordered::listed::<SourceProvider>(sources).map_values(
        |source: SourceProviderView| projection::provider_id(source),
    )
}

/// The ids of providers, in ascending order of the providers.
pub fn ids_of_sources(sources: &OrderedSet<SourceProvider>) -> (r: Vec<String>)
    ensures
        r.deep_view() == source_ids(sources.deep_view()),
{
    let n: usize = sources.len();
    let ghost items = sources.items();
    let mut out: Vec<String> = Vec::new();
    let mut i: usize = 0;
    while i < n
        invariant
            i <= n == items.len(),
            items == sources.items(),
            out@.len() == i,
            forall|j: int| 0 <= j < i ==> #[trigger] out@[j]@ == projection::provider_id(items[j]),
        decreases n - i,
    {
        out.push(sources.item_at(i).as_str().to_owned());
        i += 1;
    }
    assert(out.deep_view() =~= source_ids(sources.deep_view()));
    out
}

/// What a shown plan says.
pub open spec fn preview_form(preview: ProviderPlanPreviewView) -> JsonView {
    let json = json::empty_object();
    let json = json::with(json, "considered"@, number(preview.considered as nat));
    let json = json::with(json, "matrix"@, matrix_form(preview.matrix));
    let json = json::with(json, "operations"@, operations_form(preview.operations));
    let json = json::with(json, "pending"@, number(preview.pending as nat));
    let json = json::with(json, "scope"@, JsonView::Text("all"@));
    let json = json::with(
        json,
        "selectedSources"@,
        json::text_list(source_ids(preview.selected_sources)),
    );
    let json = json::with(json, "sessions"@, session_rows(preview.sessions));
    let json = json::with(
        json,
        "targetProvider"@,
        JsonView::Text(projection::provider_id(preview.target_provider)),
    );
    json::with(json, "totalCandidates"@, number(preview.total_candidates as nat))
}

fn encode_preview(preview: &ProviderPlanPreview) -> (r: Json)
    ensures
        r.deep_view() == preview_form(preview.deep_view()),
{
    let sources = ids_of_sources(&preview.selected_sources);
    let json = Json::object();
    let json = json.with("considered", Json::number(preview.considered as u64));
    let json = json.with("matrix", encode_matrix(&preview.matrix));
    let json = json.with("operations", encode_operations(&preview.operations));
    let json = json.with("pending", Json::number(preview.pending as u64));
    let json = json.with("scope", Json::text("all"));
    let json = json.with("selectedSources", Json::text_list(&sources));
    let json = json.with("sessions", encode_sessions(&preview.sessions));
    let json = json.with("targetProvider", Json::text(preview.target_provider.as_str()));
    json.with("totalCandidates", Json::number(preview.total_candidates as u64))
}

/// A thread that was left alone, and why.
pub open spec fn reason_form(reason: SkipReasonView) -> JsonView {
    json::with(
        json::with(json::empty_object(), "reason"@, JsonView::Text(reason.reason)),
        "threadId"@,
        json::optional_text(reason.thread_id),
    )
}

/// Reasons, in order.
pub open spec fn reason_list(reasons: Seq<SkipReasonView>) -> JsonView {
    JsonView::Array(
        planning::reasons_in_order(reasons).map_values(
            |reason: SkipReasonView| reason_form(reason),
        ),
    )
}

fn encode_reasons(reasons: &Vec<SkipReason>) -> (r: Json)
    ensures
        r.deep_view() == reason_list(reasons.deep_view()),
{
    let mut sorted = reasons.copy_of();
    sort_reasons(&mut sorted);
    let ghost view = sorted.deep_view();
    let mut items: Vec<Json> = Vec::new();
    let mut i: usize = 0;
    while i < sorted.len()
        invariant
            i <= sorted@.len(),
            view == sorted.deep_view(),
            items@.len() == i,
            forall|j: int|
                0 <= j < i ==> json::json_view(#[trigger] items@[j]) == reason_form(view[j]),
        decreases sorted@.len() - i,
    {
        assert(view[i as int] == sorted@[i as int].deep_view());
        let json = Json::object();
        let json = json.with("reason", Json::text(sorted[i].reason.as_str()));
        let json = json.with("threadId", Json::optional_text(&sorted[i].thread_id));
        items.push(json);
        i += 1;
    }
    let r = Json::Array(items);
    assert(r.deep_view()->Array_0 =~= reason_list(reasons.deep_view())->Array_0);
    r
}

/// The JSON form of what the catalog says of a session.
pub open spec fn catalog_form(catalog: CatalogStateView) -> Seq<char> {
    match catalog {
        CatalogStateView::Missing => "{\"state\":\"missing\"}"@,
        CatalogStateView::MissingCandidate { provider } => "{\"state\":\"missingCandidate\",\"provider\":"@
            + json::json_quote(projection::provider_id(provider)) + "}"@,
        CatalogStateView::Present { provider } => "{\"state\":\"present\",\"provider\":"@
            + json::json_quote(projection::provider_id(provider)) + "}"@,
    }
}

fn encode_catalog(catalog: &CatalogState) -> (r: String)
    ensures
        r@ == catalog_form(catalog.deep_view()),
{
    match catalog {
        CatalogState::Missing => "{\"state\":\"missing\"}".to_owned(),
        CatalogState::MissingCandidate { provider } => {
            let id = json::quote(provider.as_str());
            join3("{\"state\":\"missingCandidate\",\"provider\":", id.as_str(), "}")
        },
        CatalogState::Present { provider } => {
            let id = json::quote(provider.as_str());
            join3("{\"state\":\"present\",\"provider\":", id.as_str(), "}")
        },
    }
}

/// A text as bytes, ended by a zero byte.
pub open spec fn ended(s: Seq<char>) -> Seq<u8> {
    providers::utf8(s).push(0u8)
}

/// The bytes of a number, the lowest first.
pub open spec fn number_bytes(value: u64) -> Seq<u8> {
    vstd::bytes::spec_u64_to_le_bytes(value)
}

/// The bytes of a projection record, in a form that tells records apart.
pub open spec fn record_bytes(id: Seq<char>, record: ProjectionRecordView) -> Seq<u8> {
    let catalog = providers::utf8(catalog_form(record.original_catalog));
    ended(id) + number_bytes(record.version) + number_bytes(record.timestamp as u64) + ended(
        projection::provider_id(record.origin_provider),
    ) + ended(projection::provider_id(record.projected_target)) + seq![
        if record.original_state_present {
            1u8
        } else {
            0u8
        },
    ] + ended(projection::provider_id(record.original_state_provider)) + number_bytes(
        catalog.len() as u64,
    ) + catalog + match record.original_rollout_provider {
        Some(provider) => ended("rp"@) + ended(projection::provider_id(provider)),
        None => ended("rp-none"@),
    }
}

/// The bytes of the records of `keys`, in their order.
pub open spec fn records_bytes(
    threads: Map<Seq<char>, ProjectionRecordView>,
    keys: Seq<Seq<char>>,
) -> Seq<u8>
    decreases keys.len(),
{
    if keys.len() == 0 {
        Seq::empty()
    } else {
        records_bytes(threads, keys.drop_last()) + record_bytes(keys.last(), threads[keys.last()])
    }
}

/// The bytes of a store that its fingerprint is taken of.
pub open spec fn store_bytes(store: ProjectionStoreView) -> Seq<u8> {
    let keys = ordered::listed::<String>(store.threads.dom());
    ended("projection-store-v1"@) + vstd::bytes::spec_u32_to_le_bytes(store.schema_version)
        + number_bytes(store.projection_version) + ended(
        projection::provider_id(store.target_provider),
    ) + number_bytes(store.timestamp as u64) + number_bytes(keys.len() as u64) + records_bytes(
        store.threads,
        keys,
    )
}

fn push_bytes(out: &mut Vec<u8>, bytes: &[u8])
    ensures
        final(out)@ == old(out)@ + bytes@,
{
    let ghost before = out@;
    let mut i: usize = 0;
    while i < bytes.len()
        invariant
            i <= bytes@.len(),
            out@ == before + bytes@.take(i as int),
        decreases bytes@.len() - i,
    {
        out.push(bytes[i]);
        assert(before + bytes@.take(i + 1) =~= (before + bytes@.take(i as int)).push(
            bytes@[i as int],
        ));
        i += 1;
    }
    assert(bytes@.take(i as int) =~= bytes@);
}

fn push_ended(out: &mut Vec<u8>, s: &str)
    ensures
        final(out)@ == old(out)@ + ended(s@),
{
    let ghost before = out@;
    push_bytes(out, s.as_bytes());
    out.push(0);
    assert(out@ =~= before + ended(s@));
}

fn push_number(out: &mut Vec<u8>, value: u64)
    ensures
        final(out)@ == old(out)@ + number_bytes(value),
{
    let bytes = vstd::bytes::u64_to_le_bytes(value);
    push_bytes(out, bytes.as_slice());
}

fn push_record(out: &mut Vec<u8>, id: &String, record: &ProjectionRecord)
    ensures
        final(out)@ == old(out)@ + record_bytes(id@, record.deep_view()),
{
    let ghost before = out@;
    let catalog = encode_catalog(&record.original_catalog);
    let catalog_bytes = catalog.as_str().as_bytes();
    push_ended(out, id.as_str());
    push_number(out, record.version);
    push_number(out, record.timestamp as u64);
    push_ended(out, record.origin_provider.as_str());
    push_ended(out, record.projected_target.as_str());
    out.push(
        if record.original_state_present {
            1
        } else {
            0
        },
    );
    push_ended(out, record.original_state_provider.as_str());
    push_number(out, catalog_bytes.len() as u64);
    push_bytes(out, catalog_bytes);
    match &record.original_rollout_provider {
        Some(provider) => {
            push_ended(out, "rp");
            push_ended(out, provider.as_str());
        },
        None => {
            push_ended(out, "rp-none");
        },
    }
    assert(out@ =~= before + record_bytes(id@, record.deep_view()));
}

/// The bytes of a store that its fingerprint is taken of.
pub fn fingerprint_bytes(store: &ProjectionStore) -> (r: Vec<u8>)
    ensures
        r@ == store_bytes(store.deep_view()),
{
    let n: usize = store.threads.len();
    let ghost keys = store.threads.keys();
    let ghost threads = store.threads.deep_view();
    let mut out: Vec<u8> = Vec::new();
    push_ended(&mut out, "projection-store-v1");
    let schema = vstd::bytes::u32_to_le_bytes(store.schema_version);
    push_bytes(&mut out, schema.as_slice());
    push_number(&mut out, store.projection_version);
    push_ended(&mut out, store.target_provider.as_str());
    push_number(&mut out, store.timestamp as u64);
    push_number(&mut out, n as u64);
    let ghost head = out@;
    let mut i: usize = 0;
    assert(head + records_bytes(threads, keys.take(0)) =~= head);
    while i < n
        invariant
            i <= n == keys.len(),
            keys == store.threads.keys(),
            threads == store.threads.deep_view(),
            out@ == head + records_bytes(threads, keys.take(i as int)),
        decreases n - i,
    {
        assert(keys.take(i + 1).drop_last() =~= keys.take(i as int));
        assert(keys.take(i + 1).last() == keys[i as int]);
        let ghost before = out@;
        push_record(&mut out, store.threads.key_at(i), store.threads.value_at(i));
        assert(out@ =~= head + records_bytes(threads, keys.take(i + 1)));
        i += 1;
    }
    assert(keys.take(i as int) =~= keys);
    assert(out@ =~= store_bytes(store.deep_view()));
    out
}

/// The fingerprint of a store.
pub open spec fn store_fingerprint(store: ProjectionStoreView) -> Seq<char> {
    digest::sha256_hex(store_bytes(store))
}

/// The fingerprint of a store: it tells stores apart that differ in any record.
pub fn fingerprint_projection_store(store: &ProjectionStore) -> (r: String)
    ensures
        r@ == store_fingerprint(store.deep_view()),
{
    let bytes = fingerprint_bytes(store);
    hash_bytes(bytes.as_slice())
}

/// What the token of a plan is taken of: every write, what the shown plan says, the store it was
/// planned with, and what was left alone.
pub open spec fn token_payload(
    preview: ProviderPlanPreviewView,
    plan: RepairPlanView,
    reconciled: Set<Seq<char>>,
    version: Option<u64>,
    fingerprint: Option<Seq<char>>,
    workspace_conflicts: Seq<SkipReasonView>,
) -> JsonView {
    let json = json::empty_object();
    let json = json::with(
        json,
        "catalogDeletes"@,
        encoded_writes::<CatalogDelete>(plan.catalog_deletes),
    );
    let json = json::with(
        json,
        "catalogInserts"@,
        encoded_writes::<CatalogInsert>(plan.catalog_inserts),
    );
    let json = json::with(
        json,
        "catalogUpdates"@,
        encoded_writes::<CatalogUpdate>(plan.catalog_updates),
    );
    let json = json::with(
        json,
        "expectedGlobalStateSha256"@,
        json::optional_text(plan.expected_global_state_sha256),
    );
    let json = json::with(json, "previewSummary"@, preview_form(preview));
    let json = json::with(json, "projectionStoreFingerprint"@, json::optional_text(fingerprint));
    let json = json::with(
        json,
        "projectionVersion"@,
        match version {
            Some(version) => number(version as nat),
            None => JsonView::Null,
        },
    );
    let json = json::with(
        json,
        "reconciled"@,
        json::text_list(ordered::listed::<String>(reconciled)),
    );
    let json = json::with(
        json,
        "rolloutUpdates"@,
        encoded_writes::<RolloutUpdate>(plan.rollout_updates),
    );
    let json = json::with(json, "schema"@, number(5));
    let json = json::with(json, "skipped"@, reason_list(plan.skipped));
    let json = json::with(
        json,
        "stateDeletes"@,
        encoded_writes::<StateDelete>(plan.state_deletes),
    );
    let json = json::with(
        json,
        "stateInserts"@,
        encoded_writes::<StateInsert>(plan.state_inserts),
    );
    let json = json::with(
        json,
        "stateRestores"@,
        encoded_writes::<StateUpdate>(plan.state_restores),
    );
    let json = json::with(
        json,
        "stateUpdates"@,
        encoded_writes::<StateUpdate>(plan.state_updates),
    );
    let json = json::with(json, "workspaceConflicts"@, reason_list(workspace_conflicts));
    json::with(
        json,
        "workspaceHintUpdates"@,
        encoded_writes::<WorkspaceHintUpdate>(plan.workspace_hint_updates),
    )
}

/// The items of a set, in ascending order.
pub fn listed_items(set: &OrderedSet<String>) -> (r: Vec<String>)
    ensures
        r.deep_view() == ordered::listed::<String>(set.deep_view()),
{
    let n: usize = set.len();
    let ghost items = set.items();
    let mut out: Vec<String> = Vec::new();
    let mut i: usize = 0;
    while i < n
        invariant
            i <= n == items.len(),
            items == set.items(),
            out@.len() == i,
            forall|j: int| 0 <= j < i ==> #[trigger] out@[j]@ == items[j],
        decreases n - i,
    {
        out.push(set.item_at(i).copy_of());
        i += 1;
    }
    assert(out.deep_view() =~= items);
    out
}

/// What the token of a plan is taken of.
pub fn encode_token_payload(
    preview: &ProviderPlanPreview,
    plan: &RepairPlan,
    reconciled: &OrderedSet<String>,
    version: Option<u64>,
    fingerprint: &Option<String>,
    workspace_conflicts: &Vec<SkipReason>,
) -> (r: Json)
    ensures
        r.deep_view() == token_payload(
            preview.deep_view(),
            plan.deep_view(),
            reconciled.deep_view(),
            version,
            fingerprint.deep_view(),
            workspace_conflicts.deep_view(),
        ),
{
    let undone = listed_items(reconciled);
    let version = match version {
        Some(version) => Json::number(version),
        None => Json::Null,
    };
    let json = Json::object();
    let json = json.with("catalogDeletes", encode_writes(&plan.catalog_deletes));
    let json = json.with("catalogInserts", encode_writes(&plan.catalog_inserts));
    let json = json.with("catalogUpdates", encode_writes(&plan.catalog_updates));
    let json = json.with(
        "expectedGlobalStateSha256",
        Json::optional_text(&plan.expected_global_state_sha256),
    );
    let json = json.with("previewSummary", encode_preview(preview));
    let json = json.with("projectionStoreFingerprint", Json::optional_text(fingerprint));
    let json = json.with("projectionVersion", version);
    let json = json.with("reconciled", Json::text_list(&undone));
    let json = json.with("rolloutUpdates", encode_writes(&plan.rollout_updates));
    let json = json.with("schema", Json::number(5));
    let json = json.with("skipped", encode_reasons(&plan.skipped));
    let json = json.with("stateDeletes", encode_writes(&plan.state_deletes));
    let json = json.with("stateInserts", encode_writes(&plan.state_inserts));
    let json = json.with("stateRestores", encode_writes(&plan.state_restores));
    let json = json.with("stateUpdates", encode_writes(&plan.state_updates));
    let json = json.with("workspaceConflicts", encode_reasons(workspace_conflicts));
    json.with("workspaceHintUpdates", encode_writes(&plan.workspace_hint_updates))
}

/// The version of a store that may be absent.
pub open spec fn known_version(store: Option<ProjectionStoreView>) -> Option<u64> {
    match store {
        Some(store) => Some(store.projection_version),
        None => None,
    }
}

/// The fingerprint of a store that may be absent.
pub open spec fn known_fingerprint(store: Option<ProjectionStoreView>) -> Option<Seq<char>> {
    match store {
        Some(store) => Some(store_fingerprint(store)),
        None => None,
    }
}

/// The token of a plan.
pub open spec fn plan_token(
    preview: ProviderPlanPreviewView,
    plan: RepairPlanView,
    reconciled: Set<Seq<char>>,
    store: Option<ProjectionStoreView>,
    workspace_conflicts: Seq<SkipReasonView>,
) -> Seq<char> {
    digest::sha256_hex(
        providers::utf8(
            json::rendered(
                token_payload(
                    preview,
                    plan,
                    reconciled,
                    known_version(store),
                    known_fingerprint(store),
                    workspace_conflicts,
                ),
            ),
        ),
    )
}

/// The token of a plan: a digest of everything that the plan would write and that was shown of it.
pub fn projection_plan_token(
    preview: &ProviderPlanPreview,
    plan: &RepairPlan,
    reconciled: &OrderedSet<String>,
    store: Option<&ProjectionStore>,
    workspace_conflicts: &Vec<SkipReason>,
) -> (r: String)
    ensures
        r@ == plan_token(
            preview.deep_view(),
            plan.deep_view(),
            reconciled.deep_view(),
            sessions::store_view(store),
            workspace_conflicts.deep_view(),
        ),
{
    let (version, fingerprint): (Option<u64>, Option<String>) = match store {
        Some(store) => (
            Some(store.projection_version),
            Some(fingerprint_projection_store(store)),
        ),
        None => (None, None),
    };
    let payload = encode_token_payload(
        preview,
        plan,
        reconciled,
        version,
        &fingerprint,
        workspace_conflicts,
    );
    let written = render(&payload);
    hash_bytes(written.as_str().as_bytes())
}

/// A JSON object says something under a key.
pub open spec fn says(json: JsonView, key: Seq<char>, value: JsonView) -> bool {
    json is Object && json->Object_0.contains((key, value))
}

/// A token tells of a rewrite of a state row what it expects and what it writes.
pub proof fn law_token_tells_state_updates(write: StateUpdateView)
    ensures
        ({
            let form = StateUpdate::encoding(write);
            &&& says(
                form,
                "thread_id"@,
                JsonView::Text(write.thread_id),
            )
            &&& says(
                form,
                "expected_rollout_path"@,
                JsonView::Text(write.expected_rollout_path),
            )
            &&& says(
                form,
                "expected_provider"@,
                JsonView::Text(write.expected_provider),
            )
            &&& says(
                form,
                "expected_archived"@,
                JsonView::Bool(write.expected_archived),
            )
            &&& says(
                form,
                "expected_thread_source"@,
                JsonView::Text(write.expected_thread_source),
            )
            &&& says(
                form,
                "expected_has_user_event"@,
                JsonView::Bool(write.expected_has_user_event),
            )
            &&& says(
                form,
                "rollout_path"@,
                JsonView::Text(write.rollout_path),
            )
            &&& says(
                form,
                "provider"@,
                JsonView::Text(write.provider),
            )
            &&& says(
                form,
                "archived"@,
                JsonView::Bool(write.archived),
            )
            &&& says(
                form,
                "thread_source"@,
                JsonView::Text(write.thread_source),
            )
            &&& says(
                form,
                "has_user_event"@,
                JsonView::Bool(write.has_user_event),
            )
        }),
{
    let form = StateUpdate::encoding(write);
    let members = form->Object_0;
    assert(members[0] == (
        "thread_id"@,
        JsonView::Text(write.thread_id),
    ));
    assert(members[1] == (
        "expected_rollout_path"@,
        JsonView::Text(write.expected_rollout_path),
    ));
    assert(members[2] == (
        "expected_provider"@,
        JsonView::Text(write.expected_provider),
    ));
    assert(members[3] == (
        "expected_archived"@,
        JsonView::Bool(write.expected_archived),
    ));
    assert(members[4] == (
        "expected_thread_source"@,
        JsonView::Text(write.expected_thread_source),
    ));
    assert(members[5] == (
        "expected_has_user_event"@,
        JsonView::Bool(write.expected_has_user_event),
    ));
    assert(members[6] == (
        "rollout_path"@,
        JsonView::Text(write.rollout_path),
    ));
    assert(members[7] == (
        "provider"@,
        JsonView::Text(write.provider),
    ));
    assert(members[8] == (
        "archived"@,
        JsonView::Bool(write.archived),
    ));
    assert(members[9] == (
        "thread_source"@,
        JsonView::Text(write.thread_source),
    ));
    assert(members[10] == (
        "has_user_event"@,
        JsonView::Bool(write.has_user_event),
    ));
}

/// A token tells of a new state row everything that is in it.
pub proof fn law_token_tells_state_inserts(write: StateInsertView)
    ensures
        ({
            let form = StateInsert::encoding(write);
            &&& says(
                form,
                "thread_id"@,
                JsonView::Text(write.thread_id),
            )
            &&& says(
                form,
                "rollout_path"@,
                JsonView::Text(write.rollout_path),
            )
            &&& says(
                form,
                "archived"@,
                JsonView::Bool(write.archived),
            )
            &&& says(
                form,
                "created_at"@,
                JsonView::Number(text::signed_text(write.created_at as int)),
            )
            &&& says(
                form,
                "updated_at"@,
                JsonView::Number(text::signed_text(write.updated_at as int)),
            )
            &&& says(
                form,
                "source"@,
                JsonView::Text(write.source),
            )
            &&& says(
                form,
                "thread_source"@,
                JsonView::Text(write.thread_source),
            )
            &&& says(
                form,
                "provider"@,
                JsonView::Text(write.provider),
            )
            &&& says(
                form,
                "cwd"@,
                JsonView::Text(write.cwd),
            )
            &&& says(
                form,
                "title"@,
                JsonView::Text(write.title),
            )
            &&& says(
                form,
                "sandbox_policy"@,
                JsonView::Text(write.sandbox_policy),
            )
            &&& says(
                form,
                "approval_mode"@,
                JsonView::Text(write.approval_mode),
            )
            &&& says(
                form,
                "cli_version"@,
                JsonView::Text(write.cli_version),
            )
            &&& says(
                form,
                "first_user_message"@,
                JsonView::Text(write.first_user_message),
            )
            &&& says(
                form,
                "preview"@,
                JsonView::Text(write.preview),
            )
            &&& says(
                form,
                "has_user_event"@,
                JsonView::Bool(write.has_user_event),
            )
            &&& says(
                form,
                "git_sha"@,
                json::optional_text(write.git_sha),
            )
            &&& says(
                form,
                "git_branch"@,
                json::optional_text(write.git_branch),
            )
            &&& says(
                form,
                "git_origin_url"@,
                json::optional_text(write.git_origin_url),
            )
        }),
{
    let form = StateInsert::encoding(write);
    let members = form->Object_0;
    assert(members[0] == (
        "thread_id"@,
        JsonView::Text(write.thread_id),
    ));
    assert(members[1] == (
        "rollout_path"@,
        JsonView::Text(write.rollout_path),
    ));
    assert(members[2] == (
        "archived"@,
        JsonView::Bool(write.archived),
    ));
    assert(members[3] == (
        "created_at"@,
        JsonView::Number(text::signed_text(write.created_at as int)),
    ));
    assert(members[4] == (
        "updated_at"@,
        JsonView::Number(text::signed_text(write.updated_at as int)),
    ));
    assert(members[5] == (
        "source"@,
        JsonView::Text(write.source),
    ));
    assert(members[6] == (
        "thread_source"@,
        JsonView::Text(write.thread_source),
    ));
    assert(members[7] == (
        "provider"@,
        JsonView::Text(write.provider),
    ));
    assert(members[8] == (
        "cwd"@,
        JsonView::Text(write.cwd),
    ));
    assert(members[9] == (
        "title"@,
        JsonView::Text(write.title),
    ));
    assert(members[10] == (
        "sandbox_policy"@,
        JsonView::Text(write.sandbox_policy),
    ));
    assert(members[11] == (
        "approval_mode"@,
        JsonView::Text(write.approval_mode),
    ));
    assert(members[12] == (
        "cli_version"@,
        JsonView::Text(write.cli_version),
    ));
    assert(members[13] == (
        "first_user_message"@,
        JsonView::Text(write.first_user_message),
    ));
    assert(members[14] == (
        "preview"@,
        JsonView::Text(write.preview),
    ));
    assert(members[15] == (
        "has_user_event"@,
        JsonView::Bool(write.has_user_event),
    ));
    assert(members[16] == (
        "git_sha"@,
        json::optional_text(write.git_sha),
    ));
    assert(members[17] == (
        "git_branch"@,
        json::optional_text(write.git_branch),
    ));
    assert(members[18] == (
        "git_origin_url"@,
        json::optional_text(write.git_origin_url),
    ));
}

/// A token tells of a deletion of a state row what it expects.
pub proof fn law_token_tells_state_deletes(write: StateDeleteView)
    ensures
        ({
            let form = StateDelete::encoding(write);
            &&& says(
                form,
                "thread_id"@,
                JsonView::Text(write.thread_id),
            )
            &&& says(
                form,
                "expected_provider"@,
                JsonView::Text(write.expected_provider),
            )
            &&& says(
                form,
                "expected_rollout_path"@,
                JsonView::Text(write.expected_rollout_path),
            )
        }),
{
    let form = StateDelete::encoding(write);
    let members = form->Object_0;
    assert(members[0] == (
        "thread_id"@,
        JsonView::Text(write.thread_id),
    ));
    assert(members[1] == (
        "expected_provider"@,
        JsonView::Text(write.expected_provider),
    ));
    assert(members[2] == (
        "expected_rollout_path"@,
        JsonView::Text(write.expected_rollout_path),
    ));
}

/// A token tells of a rewrite of a rollout which it is, what it expects and what it writes.
pub proof fn law_token_tells_rollout_updates(write: RolloutUpdateView)
    ensures
        ({
            let form = RolloutUpdate::encoding(write);
            &&& says(
                form,
                "thread_id"@,
                JsonView::Text(write.thread_id),
            )
            &&& says(
                form,
                "path"@,
                JsonView::Text(write.path),
            )
            &&& says(
                form,
                "archived"@,
                JsonView::Bool(write.archived),
            )
            &&& says(
                form,
                "expected_provider"@,
                json::optional_text(write.expected_provider),
            )
            &&& says(
                form,
                "provider"@,
                json::optional_text(write.provider),
            )
        }),
{
    let form = RolloutUpdate::encoding(write);
    let members = form->Object_0;
    assert(members[0] == (
        "thread_id"@,
        JsonView::Text(write.thread_id),
    ));
    assert(members[1] == (
        "path"@,
        JsonView::Text(write.path),
    ));
    assert(members[2] == (
        "archived"@,
        JsonView::Bool(write.archived),
    ));
    assert(members[3] == (
        "expected_provider"@,
        json::optional_text(write.expected_provider),
    ));
    assert(members[4] == (
        "provider"@,
        json::optional_text(write.provider),
    ));
}

/// A token tells of a rewrite of a catalog row what it expects and what it writes.
pub proof fn law_token_tells_catalog_updates(write: CatalogUpdateView)
    ensures
        ({
            let form = CatalogUpdate::encoding(write);
            &&& says(
                form,
                "host_id"@,
                JsonView::Text(write.host_id),
            )
            &&& says(
                form,
                "thread_id"@,
                JsonView::Text(write.thread_id),
            )
            &&& says(
                form,
                "expected_provider"@,
                JsonView::Text(write.expected_provider),
            )
            &&& says(
                form,
                "expected_missing_candidate"@,
                JsonView::Bool(write.expected_missing_candidate),
            )
            &&& says(
                form,
                "provider"@,
                JsonView::Text(write.provider),
            )
            &&& says(
                form,
                "missing_candidate"@,
                JsonView::Bool(write.missing_candidate),
            )
        }),
{
    let form = CatalogUpdate::encoding(write);
    let members = form->Object_0;
    assert(members[0] == (
        "host_id"@,
        JsonView::Text(write.host_id),
    ));
    assert(members[1] == (
        "thread_id"@,
        JsonView::Text(write.thread_id),
    ));
    assert(members[2] == (
        "expected_provider"@,
        JsonView::Text(write.expected_provider),
    ));
    assert(members[3] == (
        "expected_missing_candidate"@,
        JsonView::Bool(write.expected_missing_candidate),
    ));
    assert(members[4] == (
        "provider"@,
        JsonView::Text(write.provider),
    ));
    assert(members[5] == (
        "missing_candidate"@,
        JsonView::Bool(write.missing_candidate),
    ));
}

/// A token tells of a new catalog row everything that is in it.
pub proof fn law_token_tells_catalog_inserts(write: CatalogInsertView)
    ensures
        ({
            let form = CatalogInsert::encoding(write);
            &&& says(
                form,
                "host_id"@,
                JsonView::Text(write.host_id),
            )
            &&& says(
                form,
                "thread_id"@,
                JsonView::Text(write.thread_id),
            )
            &&& says(
                form,
                "title"@,
                JsonView::Text(write.title),
            )
            &&& says(
                form,
                "created_at"@,
                real_json(write.created_at),
            )
            &&& says(
                form,
                "updated_at"@,
                real_json(write.updated_at),
            )
            &&& says(
                form,
                "cwd"@,
                JsonView::Text(write.cwd),
            )
            &&& says(
                form,
                "source_detail"@,
                JsonView::Text(write.source_detail),
            )
            &&& says(
                form,
                "source_kind"@,
                JsonView::Text(write.source_kind),
            )
            &&& says(
                form,
                "provider"@,
                JsonView::Text(write.provider),
            )
            &&& says(
                form,
                "git_branch"@,
                json::optional_text(write.git_branch),
            )
        }),
{
    let form = CatalogInsert::encoding(write);
    let members = form->Object_0;
    assert(members[0] == (
        "host_id"@,
        JsonView::Text(write.host_id),
    ));
    assert(members[1] == (
        "thread_id"@,
        JsonView::Text(write.thread_id),
    ));
    assert(members[2] == (
        "title"@,
        JsonView::Text(write.title),
    ));
    assert(members[3] == (
        "created_at"@,
        real_json(write.created_at),
    ));
    assert(members[4] == (
        "updated_at"@,
        real_json(write.updated_at),
    ));
    assert(members[5] == (
        "cwd"@,
        JsonView::Text(write.cwd),
    ));
    assert(members[6] == (
        "source_detail"@,
        JsonView::Text(write.source_detail),
    ));
    assert(members[7] == (
        "source_kind"@,
        JsonView::Text(write.source_kind),
    ));
    assert(members[8] == (
        "provider"@,
        JsonView::Text(write.provider),
    ));
    assert(members[9] == (
        "git_branch"@,
        json::optional_text(write.git_branch),
    ));
}

/// A token tells of a deletion of a catalog row what it expects.
pub proof fn law_token_tells_catalog_deletes(write: CatalogDeleteView)
    ensures
        ({
            let form = CatalogDelete::encoding(write);
            &&& says(
                form,
                "host_id"@,
                JsonView::Text(write.host_id),
            )
            &&& says(
                form,
                "thread_id"@,
                JsonView::Text(write.thread_id),
            )
            &&& says(
                form,
                "expected_provider"@,
                JsonView::Text(write.expected_provider),
            )
            &&& says(
                form,
                "expected_missing_candidate"@,
                JsonView::Bool(write.expected_missing_candidate),
            )
        }),
{
    let form = CatalogDelete::encoding(write);
    let members = form->Object_0;
    assert(members[0] == (
        "host_id"@,
        JsonView::Text(write.host_id),
    ));
    assert(members[1] == (
        "thread_id"@,
        JsonView::Text(write.thread_id),
    ));
    assert(members[2] == (
        "expected_provider"@,
        JsonView::Text(write.expected_provider),
    ));
    assert(members[3] == (
        "expected_missing_candidate"@,
        JsonView::Bool(write.expected_missing_candidate),
    ));
}

/// A token tells of a hint which thread it is for, what it expects and what it writes.
pub proof fn law_token_tells_hint_updates(write: WorkspaceHintUpdateView)
    ensures
        ({
            let form = WorkspaceHintUpdate::encoding(write);
            &&& says(
                form,
                "threadId"@,
                JsonView::Text(write.thread_id),
            )
            &&& says(
                form,
                "expectedHint"@,
                match write.expected_hint { Some(hint) => hint, None => JsonView::Null, },
            )
            &&& says(
                form,
                "workspaceRoot"@,
                JsonView::Text(write.workspace_root),
            )
        }),
{
    let form = WorkspaceHintUpdate::encoding(write);
    let members = form->Object_0;
    assert(members[0] == (
        "threadId"@,
        JsonView::Text(write.thread_id),
    ));
    assert(members[1] == (
        "expectedHint"@,
        match write.expected_hint { Some(hint) => hint, None => JsonView::Null, },
    ));
    assert(members[2] == (
        "workspaceRoot"@,
        JsonView::Text(write.workspace_root),
    ));
}

/// A token tells of a planned session its thread, its origin, its time and what it needs.
pub proof fn law_token_tells_sessions(session: PlannedSessionView)
    ensures
        ({
            let form = session_row(session);
            &&& says(
                form,
                "category"@,
                JsonView::Text(category_word(session.category)),
            )
            &&& says(
                form,
                "originProvider"@,
                JsonView::Text(projection::provider_id(session.origin_provider)),
            )
            &&& says(
                form,
                "threadId"@,
                JsonView::Text(session.thread_id),
            )
            &&& says(
                form,
                "updatedAt"@,
                JsonView::Number(text::signed_text(session.updated_at as int)),
            )
        }),
{
    let form = session_row(session);
    let members = form->Object_0;
    assert(members[0] == (
        "category"@,
        JsonView::Text(category_word(session.category)),
    ));
    assert(members[1] == (
        "originProvider"@,
        JsonView::Text(projection::provider_id(session.origin_provider)),
    ));
    assert(members[2] == (
        "threadId"@,
        JsonView::Text(session.thread_id),
    ));
    assert(members[3] == (
        "updatedAt"@,
        JsonView::Number(text::signed_text(session.updated_at as int)),
    ));
}

/// A token tells how many sessions need what.
pub proof fn law_token_tells_counts(matrix: PlanMatrix)
    ensures
        ({
            let form = matrix_form(matrix);
            &&& says(
                form,
                "aligned"@,
                number(matrix.aligned as nat),
            )
            &&& says(
                form,
                "catalogInsertOnly"@,
                number(matrix.catalog_insert_only as nat),
            )
            &&& says(
                form,
                "catalogUpdateOnly"@,
                number(matrix.catalog_update_only as nat),
            )
            &&& says(
                form,
                "stateAndCatalogInsert"@,
                number(matrix.state_and_catalog_insert as nat),
            )
            &&& says(
                form,
                "stateAndCatalogUpdate"@,
                number(matrix.state_and_catalog_update as nat),
            )
            &&& says(
                form,
                "stateUpdateOnly"@,
                number(matrix.state_update_only as nat),
            )
        }),
{
    let form = matrix_form(matrix);
    let members = form->Object_0;
    assert(members[0] == (
        "aligned"@,
        number(matrix.aligned as nat),
    ));
    assert(members[1] == (
        "catalogInsertOnly"@,
        number(matrix.catalog_insert_only as nat),
    ));
    assert(members[2] == (
        "catalogUpdateOnly"@,
        number(matrix.catalog_update_only as nat),
    ));
    assert(members[3] == (
        "stateAndCatalogInsert"@,
        number(matrix.state_and_catalog_insert as nat),
    ));
    assert(members[4] == (
        "stateAndCatalogUpdate"@,
        number(matrix.state_and_catalog_update as nat),
    ));
    assert(members[5] == (
        "stateUpdateOnly"@,
        number(matrix.state_update_only as nat),
    ));
}

/// A token tells how many writes a plan comes to.
pub proof fn law_token_tells_operations(operations: PlanOperationsView)
    ensures
        ({
            let form = operations_form(operations);
            &&& says(
                form,
                "catalogInserts"@,
                number(operations.catalog_inserts as nat),
            )
            &&& says(
                form,
                "catalogUpdates"@,
                number(operations.catalog_updates as nat),
            )
            &&& says(
                form,
                "changedThreads"@,
                number(operations.changed_threads as nat),
            )
            &&& says(
                form,
                "stateUpdates"@,
                number(operations.state_updates as nat),
            )
        }),
{
    let form = operations_form(operations);
    let members = form->Object_0;
    assert(members[0] == (
        "catalogInserts"@,
        number(operations.catalog_inserts as nat),
    ));
    assert(members[1] == (
        "catalogUpdates"@,
        number(operations.catalog_updates as nat),
    ));
    assert(members[2] == (
        "changedThreads"@,
        number(operations.changed_threads as nat),
    ));
    assert(members[3] == (
        "stateUpdates"@,
        number(operations.state_updates as nat),
    ));
}

/// A token tells what a preview shows.
pub proof fn law_token_tells_the_preview(preview: ProviderPlanPreviewView)
    ensures
        ({
            let form = preview_form(preview);
            &&& says(
                form,
                "considered"@,
                number(preview.considered as nat),
            )
            &&& says(
                form,
                "matrix"@,
                matrix_form(preview.matrix),
            )
            &&& says(
                form,
                "operations"@,
                operations_form(preview.operations),
            )
            &&& says(
                form,
                "pending"@,
                number(preview.pending as nat),
            )
            &&& says(
                form,
                "scope"@,
                JsonView::Text("all"@),
            )
            &&& says(
                form,
                "selectedSources"@,
                json::text_list(source_ids(preview.selected_sources)),
            )
            &&& says(
                form,
                "sessions"@,
                session_rows(preview.sessions),
            )
            &&& says(
                form,
                "targetProvider"@,
                JsonView::Text(projection::provider_id(preview.target_provider)),
            )
            &&& says(
                form,
                "totalCandidates"@,
                number(preview.total_candidates as nat),
            )
        }),
{
    let form = preview_form(preview);
    let members = form->Object_0;
    assert(members[0] == (
        "considered"@,
        number(preview.considered as nat),
    ));
    assert(members[1] == (
        "matrix"@,
        matrix_form(preview.matrix),
    ));
    assert(members[2] == (
        "operations"@,
        operations_form(preview.operations),
    ));
    assert(members[3] == (
        "pending"@,
        number(preview.pending as nat),
    ));
    assert(members[4] == (
        "scope"@,
        JsonView::Text("all"@),
    ));
    assert(members[5] == (
        "selectedSources"@,
        json::text_list(source_ids(preview.selected_sources)),
    ));
    assert(members[6] == (
        "sessions"@,
        session_rows(preview.sessions),
    ));
    assert(members[7] == (
        "targetProvider"@,
        JsonView::Text(projection::provider_id(preview.target_provider)),
    ));
    assert(members[8] == (
        "totalCandidates"@,
        number(preview.total_candidates as nat),
    ));
}

/// A token is taken of every write of a plan, of the preview, of the store that it was planned with
/// and of what is left alone.
pub proof fn law_token_tells_every_write(
    preview: ProviderPlanPreviewView,
    plan: RepairPlanView,
    reconciled: Set<Seq<char>>,
    version: Option<u64>,
    fingerprint: Option<Seq<char>>,
    workspace_conflicts: Seq<SkipReasonView>,
)
    ensures
        ({
            let form = token_payload(preview, plan, reconciled, version, fingerprint, workspace_conflicts);
            &&& says(
                form,
                "catalogDeletes"@,
                encoded_writes::<CatalogDelete>(plan.catalog_deletes),
            )
            &&& says(
                form,
                "catalogInserts"@,
                encoded_writes::<CatalogInsert>(plan.catalog_inserts),
            )
            &&& says(
                form,
                "catalogUpdates"@,
                encoded_writes::<CatalogUpdate>(plan.catalog_updates),
            )
            &&& says(
                form,
                "expectedGlobalStateSha256"@,
                json::optional_text(plan.expected_global_state_sha256),
            )
            &&& says(
                form,
                "previewSummary"@,
                preview_form(preview),
            )
            &&& says(
                form,
                "projectionStoreFingerprint"@,
                json::optional_text(fingerprint),
            )
            &&& says(
                form,
                "projectionVersion"@,
                match version { Some(version) => number(version as nat), None => JsonView::Null, },
            )
            &&& says(
                form,
                "reconciled"@,
                json::text_list(ordered::listed::<String>(reconciled)),
            )
            &&& says(
                form,
                "rolloutUpdates"@,
                encoded_writes::<RolloutUpdate>(plan.rollout_updates),
            )
            &&& says(
                form,
                "schema"@,
                number(5),
            )
            &&& says(
                form,
                "skipped"@,
                reason_list(plan.skipped),
            )
            &&& says(
                form,
                "stateDeletes"@,
                encoded_writes::<StateDelete>(plan.state_deletes),
            )
            &&& says(
                form,
                "stateInserts"@,
                encoded_writes::<StateInsert>(plan.state_inserts),
            )
            &&& says(
                form,
                "stateRestores"@,
                encoded_writes::<StateUpdate>(plan.state_restores),
            )
            &&& says(
                form,
                "stateUpdates"@,
                encoded_writes::<StateUpdate>(plan.state_updates),
            )
            &&& says(
                form,
                "workspaceConflicts"@,
                reason_list(workspace_conflicts),
            )
            &&& says(
                form,
                "workspaceHintUpdates"@,
                encoded_writes::<WorkspaceHintUpdate>(plan.workspace_hint_updates),
            )
        }),
{
    let form = token_payload(preview, plan, reconciled, version, fingerprint, workspace_conflicts);
    let members = form->Object_0;
    assert(members[0] == (
        "catalogDeletes"@,
        encoded_writes::<CatalogDelete>(plan.catalog_deletes),
    ));
    assert(members[1] == (
        "catalogInserts"@,
        encoded_writes::<CatalogInsert>(plan.catalog_inserts),
    ));
    assert(members[2] == (
        "catalogUpdates"@,
        encoded_writes::<CatalogUpdate>(plan.catalog_updates),
    ));
    assert(members[3] == (
        "expectedGlobalStateSha256"@,
        json::optional_text(plan.expected_global_state_sha256),
    ));
    assert(members[4] == (
        "previewSummary"@,
        preview_form(preview),
    ));
    assert(members[5] == (
        "projectionStoreFingerprint"@,
        json::optional_text(fingerprint),
    ));
    assert(members[6] == (
        "projectionVersion"@,
        match version { Some(version) => number(version as nat), None => JsonView::Null, },
    ));
    assert(members[7] == (
        "reconciled"@,
        json::text_list(ordered::listed::<String>(reconciled)),
    ));
    assert(members[8] == (
        "rolloutUpdates"@,
        encoded_writes::<RolloutUpdate>(plan.rollout_updates),
    ));
    assert(members[9] == (
        "schema"@,
        number(5),
    ));
    assert(members[10] == (
        "skipped"@,
        reason_list(plan.skipped),
    ));
    assert(members[11] == (
        "stateDeletes"@,
        encoded_writes::<StateDelete>(plan.state_deletes),
    ));
    assert(members[12] == (
        "stateInserts"@,
        encoded_writes::<StateInsert>(plan.state_inserts),
    ));
    assert(members[13] == (
        "stateRestores"@,
        encoded_writes::<StateUpdate>(plan.state_restores),
    ));
    assert(members[14] == (
        "stateUpdates"@,
        encoded_writes::<StateUpdate>(plan.state_updates),
    ));
    assert(members[15] == (
        "workspaceConflicts"@,
        reason_list(workspace_conflicts),
    ));
    assert(members[16] == (
        "workspaceHintUpdates"@,
        encoded_writes::<WorkspaceHintUpdate>(plan.workspace_hint_updates),
    ));
}

/// The token of a plan is taken with the version and the fingerprint of the store that is there.
pub proof fn law_token_binds_the_store(
    preview: ProviderPlanPreviewView,
    plan: RepairPlanView,
    reconciled: Set<Seq<char>>,
    store: ProjectionStoreView,
    conflicts: Seq<SkipReasonView>,
)
    ensures
        plan_token(preview, plan, reconciled, Some(store), conflicts) == digest::sha256_hex(
            providers::utf8(
                json::rendered(
                    token_payload(
                        preview,
                        plan,
                        reconciled,
                        Some(store.projection_version),
                        Some(digest::sha256_hex(store_bytes(store))),
                        conflicts,
                    ),
                ),
            ),
        ),
        plan_token(preview, plan, reconciled, None, conflicts) == digest::sha256_hex(
            providers::utf8(
                json::rendered(
                    token_payload(preview, plan, reconciled, None, None, conflicts),
                ),
            ),
        ),
{
}

/// The fingerprint of a record is taken of all of it: of its thread, version, time, origin and
/// target, of what the state, the catalog and the rollout named before.
pub proof fn law_record_bytes_hold_the_record(id: Seq<char>, record: ProjectionRecordView)
    ensures
        ({
            let catalog = providers::utf8(catalog_form(record.original_catalog));
            let state: u8 = if record.original_state_present {
                1
            } else {
                0
            };
            let rollout = if record.original_rollout_provider is Some {
                ended("rp"@) + ended(
                    projection::provider_id(record.original_rollout_provider->0),
                )
            } else {
                ended("rp-none"@)
            };
            record_bytes(id, record) == ended(id) + number_bytes(record.version) + number_bytes(
                record.timestamp as u64,
            ) + ended(projection::provider_id(record.origin_provider)) + ended(
                projection::provider_id(record.projected_target),
            ) + seq![state] + ended(projection::provider_id(record.original_state_provider))
                + number_bytes(catalog.len() as u64) + catalog + rollout
        }),
{
}

} // verus!
