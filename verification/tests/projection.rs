use provider_hub::json::{read_json_bytes, render, Json};
use provider_hub::ordered::{OrderedMap, OrderedSet};
use provider_hub::projection::{
    build_provider_plan_preview, classify, plan_reconcile, CatalogState, CurrentProjectionState,
    EligibleSession, PlanCategory, ProjectionError, ProjectionRecord, ProjectionScope,
    ProjectionStore, ReconcileConflictReason, SourceProvider,
};

fn present(provider: SourceProvider) -> CatalogState {
    CatalogState::Present { provider }
}

fn provider(id: &str) -> SourceProvider {
    SourceProvider::Other(id.to_string())
}

fn providers(items: Vec<SourceProvider>) -> OrderedSet<SourceProvider> {
    OrderedSet::from_items(items)
}

fn session(id: &str, origin: SourceProvider, catalog: CatalogState, updated_at: i64) -> EligibleSession {
    EligibleSession {
        id: id.to_string(),
        origin_provider: origin.clone(),
        state_present: true,
        state_provider: origin,
        catalog,
        updated_at,
    }
}

fn screenshot_sessions() -> Vec<EligibleSession> {
    let mut sessions = Vec::new();
    for index in 0..50 {
        sessions.push(EligibleSession {
            id: format!("openai-{index:03}"),
            origin_provider: SourceProvider::OpenAi,
            state_present: true,
            state_provider: SourceProvider::OpenAi,
            catalog: present(provider("custom")),
            updated_at: 1_000 - index,
        });
    }
    for index in 0..141 {
        sessions.push(EligibleSession {
            id: format!("custom-{index:03}"),
            origin_provider: provider("custom"),
            state_present: true,
            state_provider: provider("custom"),
            catalog: present(provider("custom")),
            updated_at: 900 - index,
        });
    }
    sessions
}

#[test]
fn screenshot_range_reconciles_for_each_target() {
    let sessions = screenshot_sessions();
    let selected = providers(vec![
        SourceProvider::OpenAi,
        provider("custom"),
        provider("codexpilot"),
    ]);
    let openai = build_provider_plan_preview(
        &sessions,
        &selected,
        SourceProvider::OpenAi,
        ProjectionScope::All,
    )
    .unwrap();
    assert_eq!(openai.considered, 191);
    assert_eq!(openai.matrix.aligned, 0);
    assert_eq!(openai.matrix.catalog_update_only, 50);
    assert_eq!(openai.matrix.state_and_catalog_update, 141);
    assert_eq!(openai.pending, 191);
    assert_eq!(openai.operations.state_updates, 141);
    assert_eq!(openai.operations.catalog_updates, 191);

    let custom = build_provider_plan_preview(
        &sessions,
        &selected,
        provider("custom"),
        ProjectionScope::All,
    )
    .unwrap();
    assert_eq!(custom.considered, 191);
    assert_eq!(custom.matrix.aligned, 141);
    assert_eq!(custom.matrix.state_update_only, 50);
    assert_eq!(custom.pending, 50);
    assert_eq!(custom.operations.state_updates, 50);
    assert_eq!(custom.operations.catalog_updates, 0);
}

#[test]
fn all_scope_includes_every_selected_and_target_session() {
    let mut sessions = Vec::new();
    for index in 0..35 {
        sessions.push(EligibleSession {
            id: format!("a-openai-{index:02}"),
            origin_provider: SourceProvider::OpenAi,
            state_present: true,
            state_provider: SourceProvider::OpenAi,
            catalog: present(SourceProvider::OpenAi),
            updated_at: index,
        });
        sessions.push(EligibleSession {
            id: format!("b-custom-{index:02}"),
            origin_provider: provider("custom"),
            state_present: true,
            state_provider: provider("custom"),
            catalog: present(provider("custom")),
            updated_at: index,
        });
    }
    let selected = providers(vec![provider("custom")]);
    let preview = build_provider_plan_preview(
        &sessions,
        &selected,
        SourceProvider::OpenAi,
        ProjectionScope::All,
    )
    .unwrap();

    assert_eq!(preview.total_candidates, 70);
    assert_eq!(preview.considered, 70);
    assert!(preview.selected_sources.contains(&SourceProvider::OpenAi));
    assert_eq!(preview.sessions.first().unwrap().thread_id, "a-openai-34");
    assert_eq!(preview.sessions.last().unwrap().updated_at, 0);
    assert_eq!(
        OrderedSet::from_items(
            preview
                .sessions
                .iter()
                .map(|session| session.origin_provider.clone())
                .collect::<Vec<_>>()
        ),
        providers(vec![SourceProvider::OpenAi, provider("custom")])
    );
    preview.validate_invariants().unwrap();
}

#[test]
fn missing_state_row_is_planned_even_when_its_provider_matches() {
    let sessions = vec![EligibleSession {
        id: "rollout-only".into(),
        origin_provider: SourceProvider::Other("gateway".into()),
        state_present: false,
        state_provider: SourceProvider::Other("gateway".into()),
        catalog: CatalogState::Missing,
        updated_at: 1,
    }];
    let selected = providers(vec![SourceProvider::Other("gateway".into())]);

    let preview = build_provider_plan_preview(
        &sessions,
        &selected,
        SourceProvider::Other("gateway".into()),
        ProjectionScope::All,
    )
    .unwrap();

    assert_eq!(preview.matrix.state_and_catalog_insert, 1);
    assert_eq!(preview.operations.state_updates, 1);
    assert_eq!(preview.operations.catalog_inserts, 1);
}

fn record(id: &str, original_catalog: CatalogState) -> ProjectionRecord {
    ProjectionRecord {
        thread_id: id.into(),
        origin_provider: provider("custom"),
        original_state_present: true,
        original_state_provider: provider("custom"),
        original_catalog,
        original_rollout_provider: None,
        projected_target: SourceProvider::OpenAi,
        version: 7,
        timestamp: 1_000,
    }
}

fn store_of(threads: OrderedMap<String, ProjectionRecord>) -> ProjectionStore {
    ProjectionStore {
        schema_version: 1,
        projection_version: 7,
        target_provider: SourceProvider::OpenAi,
        timestamp: 1_000,
        threads,
    }
}

#[test]
fn reconcile_restores_only_unchanged_projection_values() {
    let records = [
        (
            "restore",
            SourceProvider::OpenAi,
            present(SourceProvider::OpenAi),
            7,
        ),
        (
            "already",
            provider("custom"),
            present(provider("custom")),
            99,
        ),
        (
            "version",
            SourceProvider::OpenAi,
            present(SourceProvider::OpenAi),
            8,
        ),
        (
            "changed",
            provider("codexpilot"),
            present(provider("codexpilot")),
            7,
        ),
    ];
    let mut threads = OrderedMap::new();
    for (id, _, _, _) in &records {
        threads.insert((*id).into(), record(id, present(provider("custom"))));
    }
    threads.insert("missing".into(), record("missing", CatalogState::Missing));
    let store = store_of(threads);
    let current = records
        .into_iter()
        .map(
            |(id, state_provider, catalog, projection_version)| CurrentProjectionState {
                thread_id: id.into(),
                state_provider,
                catalog,
                projection_version,
            },
        )
        .collect::<Vec<_>>();

    let plan = plan_reconcile(&store, &current, 2_000).unwrap();
    assert_eq!(
        plan.restores
            .iter()
            .map(|action| action.thread_id.as_str())
            .collect::<Vec<_>>(),
        vec!["restore"]
    );
    assert_eq!(plan.already_restored, vec!["already"]);
    assert_eq!(plan.missing, vec!["missing"]);
    assert_eq!(plan.conflicts.len(), 2);
    assert!(matches!(
        plan.conflicts[0].detail,
        ReconcileConflictReason::CurrentValueChanged { .. }
    ));
    assert!(matches!(
        plan.conflicts[1].detail,
        ReconcileConflictReason::VersionMismatch { .. }
    ));
}

#[test]
fn dynamic_provider_round_trips_as_a_plain_provider_id() {
    let read = |text: &str| match read_json_bytes(text.as_bytes()) {
        Ok(Json::Text(id)) => SourceProvider::deserialize(id),
        _ => panic!("{text} is no text"),
    };
    let provider = SourceProvider::from_id("MyGateway".to_string());
    assert_eq!(render(&Json::text(provider.as_str())), "\"MyGateway\"");
    assert_eq!(read("\"MyGateway\"").unwrap(), provider);
    assert_eq!(read("\"open-ai\"").unwrap(), SourceProvider::Other("open-ai".into()));
    assert_eq!(read("\"Custom\"").unwrap(), SourceProvider::Other("Custom".into()));
    assert_eq!(
        read("\"本地 Provider\"").unwrap(),
        SourceProvider::Other("本地 Provider".into())
    );
    assert!(read("\" trailing \"").is_err());
    assert_eq!(read("\"a\\nb\"").unwrap_err(), "provider id is invalid");
}

#[test]
fn the_order_of_candidates_does_not_matter() {
    let target = provider("custom");
    let mut sessions = screenshot_sessions();
    let selected = providers(vec![SourceProvider::OpenAi]);
    let plan =
        build_provider_plan_preview(&sessions, &selected, target.clone(), ProjectionScope::All)
            .unwrap();
    sessions.reverse();
    sessions.swap(3, 90);
    let with_target = providers(vec![target.clone(), SourceProvider::OpenAi]);
    let again =
        build_provider_plan_preview(&sessions, &with_target, target, ProjectionScope::All).unwrap();
    assert_eq!(plan.sessions, again.sessions);
    assert_eq!(plan.pending, again.pending);
    assert_eq!(plan.considered, 191);
    assert_eq!(again.considered, 191);
}

#[test]
fn moved_sessions_are_planned_no_more_and_a_captured_store_is_undone() {
    let target = SourceProvider::OpenAi;
    let sessions = vec![
        session("one", provider("custom"), present(provider("custom")), 5),
        session("two", provider("other"), CatalogState::Missing, 4),
        session("three", target.clone(), present(target.clone()), 3),
    ];
    let selected = providers(vec![provider("custom"), provider("other")]);
    let plan =
        build_provider_plan_preview(&sessions, &selected, target.clone(), ProjectionScope::All)
            .unwrap();
    assert_eq!(plan.pending, 2);
    let store = ProjectionStore::capture(&plan, &sessions, 1, 1_000).unwrap();
    let moved: Vec<EligibleSession> = sessions
        .iter()
        .map(|session| EligibleSession {
            state_provider: target.clone(),
            catalog: present(target.clone()),
            ..session.clone()
        })
        .collect();
    let after =
        build_provider_plan_preview(&moved, &selected, target.clone(), ProjectionScope::All)
            .unwrap();
    assert_eq!(after.pending, 0);
    assert_eq!(after.considered, 3);
    let current: Vec<CurrentProjectionState> = moved
        .iter()
        .map(|session| CurrentProjectionState {
            thread_id: session.id.clone(),
            state_provider: session.state_provider.clone(),
            catalog: session.catalog.clone(),
            projection_version: 1,
        })
        .collect();
    let undo = plan_reconcile(&store, &current, 2_000).unwrap();
    assert!(undo.conflicts.is_empty());
    for restore in &undo.restores {
        let before = sessions.iter().find(|session| session.id == restore.thread_id).unwrap();
        assert_eq!(restore.restore_state_provider, before.state_provider);
        assert_eq!(restore.restore_catalog, before.catalog);
    }
    assert_eq!(undo.restores.len() + undo.already_restored.len(), store.threads.len());
}

#[test]
fn provider_ids_are_kept_as_they_are_written() {
    for id in ["MyGateway", "open-ai", "Custom", "本地 Provider"] {
        let provider = SourceProvider::from_id(id.to_string());
        assert_eq!(provider, SourceProvider::Other(id.to_string()));
        assert_eq!(provider.as_str(), id);
    }
    assert_eq!(
        SourceProvider::from_id("openai".to_string()),
        SourceProvider::OpenAi
    );
    assert_eq!(SourceProvider::OpenAi.as_str(), "openai");
}

#[test]
fn every_category_has_its_session() {
    let target = provider("custom");
    let other = SourceProvider::OpenAi;
    let aligned = session("a", target.clone(), present(target.clone()), 1);
    assert_eq!(classify(&aligned, &target), PlanCategory::Aligned);
    let catalog = session("b", target.clone(), present(other.clone()), 1);
    assert_eq!(classify(&catalog, &target), PlanCategory::CatalogUpdateOnly);
    let candidate = session(
        "c",
        target.clone(),
        CatalogState::MissingCandidate { provider: target.clone() },
        1,
    );
    assert_eq!(classify(&candidate, &target), PlanCategory::CatalogUpdateOnly);
    let insert = session("d", target.clone(), CatalogState::Missing, 1);
    assert_eq!(classify(&insert, &target), PlanCategory::CatalogInsertOnly);
    let state = session("e", other.clone(), present(target.clone()), 1);
    assert_eq!(classify(&state, &target), PlanCategory::StateUpdateOnly);
    let both = session("f", other.clone(), present(other.clone()), 1);
    assert_eq!(classify(&both, &target), PlanCategory::StateAndCatalogUpdate);
    let all = session("g", other, CatalogState::Missing, 1);
    assert_eq!(classify(&all, &target), PlanCategory::StateAndCatalogInsert);
}

#[test]
fn a_session_listed_twice_is_refused() {
    let target = provider("custom");
    let sessions = vec![
        session("same", target.clone(), CatalogState::Missing, 1),
        session("same", target.clone(), CatalogState::Missing, 2),
    ];
    let selected = providers(vec![target.clone()]);
    let refused =
        build_provider_plan_preview(&sessions, &selected, target, ProjectionScope::All).unwrap_err();
    assert_eq!(refused, ProjectionError::DuplicateSessionId("same".into()));
}

#[test]
fn what_was_captured_is_restored_and_then_left_alone() {
    let target = SourceProvider::OpenAi;
    let sessions = vec![session("one", provider("custom"), present(provider("custom")), 5)];
    let selected = providers(vec![provider("custom")]);
    let preview =
        build_provider_plan_preview(&sessions, &selected, target.clone(), ProjectionScope::All)
            .unwrap();
    let store = ProjectionStore::capture(&preview, &sessions, 3, 1_000).unwrap();
    assert_eq!(store.projection_version, 3);
    let moved = vec![CurrentProjectionState {
        thread_id: "one".into(),
        state_provider: target.clone(),
        catalog: present(target),
        projection_version: 3,
    }];
    let plan = plan_reconcile(&store, &moved, 2_000).unwrap();
    assert_eq!(plan.restores.len(), 1);
    assert_eq!(plan.restores[0].restore_state_provider, provider("custom"));
    assert_eq!(plan.restores[0].restore_catalog, present(provider("custom")));
    let back = vec![CurrentProjectionState {
        thread_id: "one".into(),
        state_provider: plan.restores[0].restore_state_provider.clone(),
        catalog: plan.restores[0].restore_catalog.clone(),
        projection_version: plan.restores[0].next_version,
    }];
    let again = plan_reconcile(&store, &back, 3_000).unwrap();
    assert!(again.restores.is_empty());
    assert_eq!(again.already_restored, vec!["one"]);
}
