//! What the conflict check asks for on its way.

use vstd::prelude::*;

use crate::model::{ManifestEntry, TableMetadata, TableTypes};
use crate::partition_filter::PartitionFilterBuildView;
use crate::validate::{ConflictCheckReply, ConflictCheckView, ScanView};
use crate::validate_laws::{Environment, Question};

verus! {

/// The partition specs for which a state of the check holds an evaluator.
pub open spec fn known_specs<T: TableTypes>(state: ConflictCheckView<T>) -> Set<i32> {
    match state {
        ConflictCheckView::LoadList { scan, .. }
        | ConflictCheckView::BuildPartitionFilter { scan, .. }
        | ConflictCheckView::NewEvaluator { scan, .. }
        | ConflictCheckView::LoadManifest { scan, .. }
        | ConflictCheckView::MatchFile { scan, .. } => scan.evaluators.dom(),
        ConflictCheckView::MatchManifest { scan, manifest, .. } => scan.evaluators.dom().insert(
            manifest.partition_spec_id,
        ),
        _ => Set::empty(),
    }
}

/// The partition spec whose evaluator a state of the check works on.
pub open spec fn spec_in_work<T: TableTypes>(state: ConflictCheckView<T>) -> Option<i32> {
    match state {
        ConflictCheckView::BuildPartitionFilter { manifest, .. }
        | ConflictCheckView::NewEvaluator { manifest, .. } => Some(manifest.partition_spec_id),
        _ => None,
    }
}

spec fn works_on_unknown<T: TableTypes>(state: ConflictCheckView<T>) -> bool {
    spec_in_work(state) matches Some(spec_id) ==> !known_specs(state).contains(spec_id)
}

proof fn lemma_next_manifest_knows<T: TableTypes>(scan: ScanView<T>, bound: T::BoundPredicate)
    ensures
        works_on_unknown(scan.next_manifest(bound)),
        scan.next_manifest(bound) is Finished || scan.evaluators.dom().subset_of(
            known_specs(scan.next_manifest(bound)),
        ),
{
}

/// Whatever is answered, a check keeps its evaluators and works only on one that it lacks.
proof fn lemma_step_knows<T: TableTypes>(
    state: ConflictCheckView<T>,
    reply: ConflictCheckReply<T>,
)
    requires
        works_on_unknown(state),
    ensures
        works_on_unknown(state.step(reply)),
        state.step(reply) is Finished || known_specs(state).subset_of(
            known_specs(state.step(reply)),
        ),
{
    match (state, reply) {
        (
            ConflictCheckView::LoadList { scan, bound_filter, snapshot },
            ConflictCheckReply::List(Ok(list)),
        ) => {
            let manifests = crate::validate::adding_manifests(list, snapshot.snapshot_id);
            lemma_next_manifest_knows(ScanView { manifests, ..scan }, bound_filter);
        },
        (
            ConflictCheckView::MatchManifest { scan, bound_filter, manifest, evaluator },
            ConflictCheckReply::ManifestMatches(_),
        ) => {
            let evaluators = scan.evaluators.insert(manifest.partition_spec_id, evaluator);
            lemma_next_manifest_knows(ScanView { evaluators, ..scan }, bound_filter);
        },
        (
            ConflictCheckView::LoadManifest { scan, bound_filter, .. },
            ConflictCheckReply::Manifest(_),
        ) => {
            lemma_next_manifest_knows(scan, bound_filter);
        },
        (
            ConflictCheckView::MatchFile { scan, bound_filter, .. },
            ConflictCheckReply::FileMatches(_),
        ) => {
            lemma_next_manifest_knows(scan, bound_filter);
        },
        _ => {},
    }
}

proof fn lemma_run_step<T: TableTypes>(
    env: Environment<T>,
    state: ConflictCheckView<T>,
    n: nat,
)
    ensures
        env.run(state, n + 1) == env.run(state, n).step(env.reply(env.run(state, n))),
    decreases n,
{
    if n > 0 {
        lemma_run_step(env, state.step(env.reply(state)), (n - 1) as nat);
    } else {
        reveal_with_fuel(Environment::run, 2);
    }
}

proof fn lemma_run_knows<T: TableTypes>(
    env: Environment<T>,
    state: ConflictCheckView<T>,
    m: nat,
    n: nat,
)
    requires
        works_on_unknown(state),
        m <= n,
    ensures
        works_on_unknown(env.run(state, n)),
        env.run(state, n) is Finished || known_specs(env.run(state, m)).subset_of(
            known_specs(env.run(state, n)),
        ),
    decreases n,
{
    if n > 0 {
        lemma_run_knows(
            env,
            state,
            if m == n {
                (n - 1) as nat
            } else {
                m
            },
            (n - 1) as nat,
        );
        lemma_run_step(env, state, (n - 1) as nat);
        let before = env.run(state, (n - 1) as nat);
        lemma_step_knows(before, env.reply(before));
        if before is Finished {
            assert(env.run(state, n) == before);
        }
    }
}

/// An evaluator is made once for each partition spec and used again for every manifest of that
/// spec: once the check has asked for one, it works on no other for the same spec.
pub proof fn law_one_evaluator_per_spec<T: TableTypes>(
    env: Environment<T>,
    metadata: TableMetadata<T>,
    from_snapshot_id: Option<i64>,
    conflict_filter: T::Predicate,
    filter_text: Seq<char>,
    m: nat,
    n: nat,
)
    requires
        m < n,
        env.run(
            ConflictCheckView::start(metadata, from_snapshot_id, conflict_filter, filter_text),
            m,
        ) is NewEvaluator,
    ensures
        ({
            let start = ConflictCheckView::start(
                metadata,
                from_snapshot_id,
                conflict_filter,
                filter_text,
            );
            spec_in_work(env.run(start, n)) is None || spec_in_work(env.run(start, n))
                != spec_in_work(env.run(start, m))
        }),
{
    let start = ConflictCheckView::start(
        metadata,
        from_snapshot_id,
        conflict_filter,
        filter_text,
    );
    lemma_run_step(env, start, m);
    lemma_run_knows(env, start, m + 1, n);
}

/// Whether a state of the check is one that the question and the environment lead to.
spec fn state_fits<T: TableTypes>(
    env: Environment<T>,
    question: Question<T>,
    state: ConflictCheckView<T>,
) -> bool {
    match state {
        ConflictCheckView::BindFilter {
            metadata,
            conflict_filter,
            filter_text,
            case_sensitive,
            ..
        } => {
            &&& metadata == question.metadata
            &&& filter_text == question.filter_text
            &&& (env.bind)(conflict_filter, metadata.current_schema, case_sensitive) == Ok::<
                T::BoundPredicate,
                T::Failure,
            >(question.bound_filter)
        },
        ConflictCheckView::FindAncestors { metadata, filter_text, bound_filter, .. } => {
            &&& metadata == question.metadata
            &&& filter_text == question.filter_text
            &&& bound_filter == question.bound_filter
        },
        ConflictCheckView::LoadList { scan, bound_filter, .. } => {
            &&& crate::validate_laws::scan_fits(env, question, scan)
            &&& bound_filter == question.bound_filter
        },
        ConflictCheckView::BuildPartitionFilter { scan, manifest, build } => {
            &&& crate::validate_laws::scan_fits(env, question, scan)
            &&& env.run_filter(build, 5) == (PartitionFilterBuildView::Finished {
                result: question.partition_filter(env, manifest.partition_spec_id),
                bound_filter: question.bound_filter,
            })
        },
        ConflictCheckView::NewEvaluator { scan, bound_filter, manifest, partition_filter } => {
            &&& crate::validate_laws::scan_fits(env, question, scan)
            &&& bound_filter == question.bound_filter
            &&& question.partition_filter(env, manifest.partition_spec_id) == Ok::<
                T::BoundPredicate,
                crate::error::ErrorView<T>,
            >(partition_filter)
        },
        ConflictCheckView::MatchManifest { scan, bound_filter, manifest, evaluator } => {
            &&& crate::validate_laws::scan_fits(env, question, scan)
            &&& bound_filter == question.bound_filter
            &&& question.partition_filter(env, manifest.partition_spec_id) matches Ok(filter)
            &&& evaluator == (env.new_evaluator)(filter)
        },
        ConflictCheckView::LoadManifest { scan, bound_filter, manifest } => {
            &&& crate::validate_laws::scan_fits(env, question, scan)
            &&& bound_filter == question.bound_filter
            &&& question.manifest_may_match(env, manifest) == Ok::<
                bool,
                crate::error::ErrorView<T>,
            >(true)
        },
        ConflictCheckView::MatchFile {
            scan,
            bound_filter,
            entry,
            entries,
            include_empty_files,
        } => {
            &&& crate::validate_laws::scan_fits(env, question, scan)
            &&& bound_filter == question.bound_filter
            &&& entry.status is Added
            &&& forall|k: int| 0 <= k < entries.len() ==> (#[trigger] entries[k]).status is Added
            &&& !include_empty_files
        },
        ConflictCheckView::Finished(_) => true,
    }
}

proof fn lemma_next_manifest_fits<T: TableTypes>(
    env: Environment<T>,
    question: Question<T>,
    scan: ScanView<T>,
)
    requires
        crate::validate_laws::scan_fits(env, question, scan),
    ensures
        state_fits(env, question, scan.next_manifest(question.bound_filter)),
{
    if scan.manifests.len() > 0 {
        let spec_id = scan.manifests[0].partition_spec_id;
        crate::validate_laws::law_partition_filter_is_built(
            env,
            scan.metadata,
            spec_id,
            scan.metadata.current_schema,
            question.bound_filter,
        );
        reveal_with_fuel(Environment::run_filter, 6);
    }
}

proof fn lemma_next_entry_fits<T: TableTypes>(
    env: Environment<T>,
    question: Question<T>,
    scan: ScanView<T>,
    entries: Seq<ManifestEntry<T>>,
)
    requires
        crate::validate_laws::scan_fits(env, question, scan),
        forall|k: int| 0 <= k < entries.len() ==> (#[trigger] entries[k]).status is Added,
    ensures
        state_fits(env, question, scan.next_entry(question.bound_filter, entries)),
{
    if entries.len() == 0 {
        lemma_next_manifest_fits(env, question, scan);
    }
}

proof fn lemma_step_fits<T: TableTypes>(
    env: Environment<T>,
    question: Question<T>,
    state: ConflictCheckView<T>,
)
    requires
        state_fits(env, question, state),
    ensures
        state_fits(env, question, state.step(env.reply(state))),
{
    match state {
        ConflictCheckView::LoadList { scan, bound_filter, snapshot } => {
            if (env.list)(snapshot) is Ok {
                let manifests = crate::validate::adding_manifests(
                    (env.list)(snapshot)->Ok_0,
                    snapshot.snapshot_id,
                );
                lemma_next_manifest_fits(env, question, ScanView { manifests, ..scan });
            }
        },
        ConflictCheckView::BuildPartitionFilter { scan, manifest, build } => {
            reveal_with_fuel(Environment::run_filter, 7);
        },
        ConflictCheckView::MatchManifest { scan, bound_filter, manifest, evaluator } => {
            let evaluators = scan.evaluators.insert(manifest.partition_spec_id, evaluator);
            lemma_next_manifest_fits(env, question, ScanView { evaluators, ..scan });
        },
        ConflictCheckView::LoadManifest { scan, bound_filter, manifest } => {
            if (env.load)(manifest) is Ok {
                let all = (env.load)(manifest)->Ok_0.entries;
                crate::seqs::lemma_filter_members(
                    all,
                    |entry: ManifestEntry<T>| entry.status is Added,
                );
                lemma_next_entry_fits(
                    env,
                    question,
                    scan,
                    crate::validate::added_entries(all),
                );
            }
        },
        ConflictCheckView::MatchFile { scan, entries, .. } => {
            lemma_next_entry_fits(env, question, scan, entries);
        },
        _ => {},
    }
}

proof fn lemma_run_fits<T: TableTypes>(
    env: Environment<T>,
    question: Question<T>,
    state: ConflictCheckView<T>,
    n: nat,
)
    requires
        state_fits(env, question, state),
    ensures
        state_fits(env, question, env.run(state, n)),
    decreases n,
{
    if n > 0 {
        lemma_step_fits(env, question, state);
        lemma_run_fits(env, question, state.step(env.reply(state)), (n - 1) as nat);
    }
}

/// A manifest is read only where its partition summaries leave room for matching files. A file's
/// metrics are consulted only where the file was added, and with the request not to count a file
/// without rows as a match.
pub proof fn law_only_candidates_are_looked_at<T: TableTypes>(
    env: Environment<T>,
    metadata: TableMetadata<T>,
    from_snapshot_id: Option<i64>,
    conflict_filter: T::Predicate,
    filter_text: Seq<char>,
    bound_filter: T::BoundPredicate,
    n: nat,
)
    requires
        (env.bind)(conflict_filter, metadata.current_schema, true) == Ok::<
            T::BoundPredicate,
            T::Failure,
        >(bound_filter),
    ensures
        match env.run(
            ConflictCheckView::start(metadata, from_snapshot_id, conflict_filter, filter_text),
            n,
        ) {
            ConflictCheckView::LoadManifest { manifest, .. } => (Question {
                metadata,
                bound_filter,
                filter_text,
            }).manifest_may_match(env, manifest) == Ok::<bool, crate::error::ErrorView<T>>(true),
            ConflictCheckView::MatchFile { entry, include_empty_files, .. } => {
                entry.status is Added && !include_empty_files
            },
            _ => true,
        },
{
    let start = ConflictCheckView::start(
        metadata,
        from_snapshot_id,
        conflict_filter,
        filter_text,
    );
    lemma_run_fits(env, Question { metadata, bound_filter, filter_text }, start, n);
}

} // verus!
